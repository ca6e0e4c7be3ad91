//! Compact English, German, and Polish UI strings.
use vstd::prelude::*;

use crate::text::same_text;

verus! {

#[derive(Clone, Copy, Debug, Eq, PartialEq, Structural)]
pub enum Locale {
    English,
    German,
    Polish,
}

/// Whether a language tag begins with the two letters of `lower`, each in
/// lower or upper case (`upper`).
pub open spec fn tag_starts(tag: Seq<char>, lower: Seq<char>, upper: Seq<char>) -> bool {
    &&& tag.len() >= 2
    &&& (tag[0] == lower[0] || tag[0] == upper[0])
    &&& (tag[1] == lower[1] || tag[1] == upper[1])
}

/// German for tags starting with `de`, Polish for `pl` (in any case),
/// English otherwise.
pub open spec fn locale_of(tag: Seq<char>) -> Locale {
    if tag_starts(tag, seq!['d', 'e'], seq!['D', 'E']) {
        Locale::German
    } else if tag_starts(tag, seq!['p', 'l'], seq!['P', 'L']) {
        Locale::Polish
    } else {
        Locale::English
    }
}

impl Locale {
    #[must_use]
    pub fn from_language_tag(tag: &str) -> (l: Locale)
        ensures
            l == locale_of(tag@),
    {
        if tag.unicode_len() < 2 {
            return Locale::English;
        }
        let a = tag.get_char(0);
        let b = tag.get_char(1);
        if (a == 'd' || a == 'D') && (b == 'e' || b == 'E') {
            Locale::German
        } else if (a == 'p' || a == 'P') && (b == 'l' || b == 'L') {
            Locale::Polish
        } else {
            Locale::English
        }
    }
}

/// The UI string for `key` in `locale`; an unknown key is shown as itself.
pub open spec fn text_spec(locale: Locale, key: Seq<char>) -> Seq<char> {
    if key == "join"@ {
        match locale {
            Locale::German => "Beitreten"@,
            Locale::Polish => "Dołącz"@,
            Locale::English => "Join"@,
        }
    } else if key == "pass"@ {
        match locale {
            Locale::German => "Passen"@,
            Locale::Polish => "Pas"@,
            Locale::English => "Pass"@,
        }
    } else if key == "play"@ {
        match locale {
            Locale::German => "Spielen"@,
            Locale::Polish => "Zagraj"@,
            Locale::English => "Play"@,
        }
    } else if key == "observe"@ {
        match locale {
            Locale::German => "Zuschauen"@,
            Locale::Polish => "Obserwuj"@,
            Locale::English => "Observe"@,
        }
    } else {
        key
    }
}

#[must_use]
pub fn text<'a>(locale: Locale, key: &'a str) -> (s: &'a str)
    ensures
        s@ == text_spec(locale, key@),
{
    if same_text(key, "join") {
        match locale {
            Locale::German => "Beitreten",
            Locale::Polish => "Dołącz",
            Locale::English => "Join",
        }
    } else if same_text(key, "pass") {
        match locale {
            Locale::German => "Passen",
            Locale::Polish => "Pas",
            Locale::English => "Pass",
        }
    } else if same_text(key, "play") {
        match locale {
            Locale::German => "Spielen",
            Locale::Polish => "Zagraj",
            Locale::English => "Play",
        }
    } else if same_text(key, "observe") {
        match locale {
            Locale::German => "Zuschauen",
            Locale::Polish => "Obserwuj",
            Locale::English => "Observe",
        }
    } else {
        key
    }
}

} // verus!
