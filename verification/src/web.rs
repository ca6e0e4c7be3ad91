//! The web front end's pages: HTML escaping, the classic observer table, the
//! page heads, and the addresses the proxy forwards to.
use vstd::prelude::*;

use crate::cards::{rank_label_spec, suit_symbol_spec, Suit};
use crate::protocol::{
    player_rows, Lifecycle, PublicCard, PublicPlayed, PublicPlayerModel, PublicView,
    PublicViewModel,
};
use crate::server::lobby::RoomSummary;
use crate::text::{
    decimal, push_decimal, push_signed, same_text, signed_decimal, url_encode, url_encoded,
};
use vstd::utf8::encode_utf8;
use crate::tysiac::model::{event_models, EventModel};

verus! {

/// The HTML text of one character: markup characters become entities.
pub open spec fn html_char(c: char) -> Seq<char> {
    if c == '&' {
        "&amp;"@
    } else if c == '<' {
        "&lt;"@
    } else if c == '>' {
        "&gt;"@
    } else if c == '"' {
        "&quot;"@
    } else if c == '\'' {
        "&#39;"@
    } else {
        seq![c]
    }
}

/// Text made safe for HTML content and attribute values.
pub open spec fn html_escaped(s: Seq<char>) -> Seq<char>
    decreases s.len(),
{
    if s.len() == 0 {
        Seq::empty()
    } else {
        html_escaped(s.drop_last()) + html_char(s.last())
    }
}

/// Appends `value` with `&`, `<`, `>`, `"` and `'` written as entities.
pub fn push_escaped(s: &mut String, value: &str)
    ensures
        final(s)@ == old(s)@ + html_escaped(value@),
{
    let ghost start = s@;
    let n = value.unicode_len();
    let mut i: usize = 0;
    assert(value@.take(0) =~= Seq::<char>::empty());
    while i < n
        invariant
            n == value@.len(),
            i <= n,
            s@ == start + html_escaped(value@.take(i as int)),
        decreases n - i,
    {
        let c = value.get_char(i);
        assert(value@.take(i as int + 1).drop_last() =~= value@.take(i as int));
        if c == '&' {
            s.append("&amp;");
        } else if c == '<' {
            s.append("&lt;");
        } else if c == '>' {
            s.append("&gt;");
        } else if c == '"' {
            s.append("&quot;");
        } else if c == '\'' {
            s.append("&#39;");
        } else {
            let one = value.substring_char(i, i + 1);
            assert(one@ =~= seq![c]);
            s.append(one);
        }
        assert(s@ =~= start + html_escaped(value@.take(i as int + 1)));
        i = i + 1;
    }
    assert(value@.take(n as int) =~= value@);
}

pub fn escape(value: &str) -> (s: String)
    ensures
        s@ == html_escaped(value@),
{
    let mut s = String::new();
    push_escaped(&mut s, value);
    s
}

/// Escaping for attribute values: the same entities as for content.
pub fn escape_attr(value: &str) -> (s: String)
    ensures
        s@ == html_escaped(value@),
{
    escape(value)
}

pub fn suit_symbol(suit: Suit) -> (s: &'static str)
    ensures
        s@ == seq![suit_symbol_spec(suit)],
{
    proof {
        reveal_strlit("♣");
        reveal_strlit("♦");
        reveal_strlit("♥");
        reveal_strlit("♠");
    }
    match suit {
        Suit::Clubs => "♣",
        Suit::Diamonds => "♦",
        Suit::Hearts => "♥",
        Suit::Spades => "♠",
    }
}

/// A card on the classic table: a back, or the rank and suit in the suit's
/// colour.
pub open spec fn card_markup_spec(card: PublicCard) -> Seq<char> {
    match card {
        PublicCard::Back => "<span class=\"card back\"><span>♠</span></span>"@,
        PublicCard::Face(c) => "<span class=\"card "@ + (if c.suit == Suit::Diamonds || c.suit
            == Suit::Hearts {
            "red"@
        } else {
            "black"@
        }) + "\"><b>"@ + rank_label_spec(c.rank) + "</b><i>"@ + seq![suit_symbol_spec(c.suit)]
            + "</i></span>"@,
    }
}

/// Appends the markup of one card.
pub fn push_card_markup(s: &mut String, card: PublicCard)
    ensures
        final(s)@ == old(s)@ + card_markup_spec(card),
{
    match card {
        PublicCard::Back => {
            s.append("<span class=\"card back\"><span>♠</span></span>");
        },
        PublicCard::Face(c) => {
            let ghost start = s@;
            let red = c.suit == Suit::Diamonds || c.suit == Suit::Hearts;
            s.append("<span class=\"card ");
            s.append(if red { "red" } else { "black" });
            s.append("\"><b>");
            s.append(c.rank.label());
            s.append("</b><i>");
            s.append(suit_symbol(c.suit));
            s.append("</i></span>");
            assert(s@ =~= start + card_markup_spec(card));
        },
    }
}

pub fn card_markup(card: PublicCard) -> (s: String)
    ensures
        s@ == card_markup_spec(card),
{
    let mut s = String::new();
    push_card_markup(&mut s, card);
    s
}

/// The head of every modern page: the title, a `<base>` so assets resolve
/// relative to the page even below a proxy prefix, and the stylesheet. The
/// lobby (`./`) also fixes its base when opened without a trailing slash.
pub open spec fn modern_head_spec(title: Seq<char>, base_href: Seq<char>) -> Seq<char> {
    "<!doctype html><html lang=\"en\"><head><meta charset=\"utf-8\"><meta name=\"viewport\" content=\"width=device-width,initial-scale=1,viewport-fit=cover\"><title>"@
        + html_escaped(title) + "</title><base id=\"app-base\" href=\""@ + html_escaped(base_href)
        + "\">"@ + (if base_href == "./"@ {
        "<script>(function(){var b=document.getElementById('app-base'),p=window.location.pathname;if(b&&p.charAt(p.length-1)!=='/'){b.href=p+'/';}}());</script>"@
    } else {
        ""@
    }) + "<link rel=\"stylesheet\" href=\"static/app.css\"></head>"@
}

pub fn modern_head(title: &str, base_href: &str) -> (s: String)
    ensures
        s@ == modern_head_spec(title@, base_href@),
{
    let mut s = String::from_str(
        "<!doctype html><html lang=\"en\"><head><meta charset=\"utf-8\"><meta name=\"viewport\" content=\"width=device-width,initial-scale=1,viewport-fit=cover\"><title>",
    );
    push_escaped(&mut s, title);
    s.append("</title><base id=\"app-base\" href=\"");
    push_escaped(&mut s, base_href);
    s.append("\">");
    if same_text(base_href, "./") {
        s.append(
            "<script>(function(){var b=document.getElementById('app-base'),p=window.location.pathname;if(b&&p.charAt(p.length-1)!=='/'){b.href=p+'/';}}());</script>",
        );
    }
    proof {
        reveal_strlit("");
    }
    s.append("<link rel=\"stylesheet\" href=\"static/app.css\"></head>");
    s
}

/// The script tag every modern page ends with.
pub fn scripts() -> (s: &'static str)
    ensures
        s@ == "<script src=\"static/app.js\"></script>"@,
{
    "<script src=\"static/app.js\"></script>"
}

/// The WebSocket address of a game server: `https://` becomes `wss://`,
/// `http://` becomes `ws://`, and any other scheme has none.
pub open spec fn websocket_base_spec(http_base: Seq<char>) -> Option<Seq<char>> {
    if http_base.len() >= 8 && http_base.take(8) == "https://"@ {
        Some("wss://"@ + http_base.skip(8))
    } else if http_base.len() >= 7 && http_base.take(7) == "http://"@ {
        Some("ws://"@ + http_base.skip(7))
    } else {
        None
    }
}

/// Whether `s` begins with `prefix`.
pub fn starts_with(s: &str, prefix: &str) -> (b: bool)
    ensures
        b == (s@.len() >= prefix@.len() && s@.take(prefix@.len() as int) == prefix@),
{
    let n = prefix.unicode_len();
    if s.unicode_len() < n {
        return false;
    }
    let head = s.substring_char(0, n);
    same_text(head, prefix)
}

pub fn websocket_base(http_base: &str) -> (r: Option<String>)
    ensures
        match r {
            Some(s) => websocket_base_spec(http_base@) == Some(s@),
            None => websocket_base_spec(http_base@) is None,
        },
{
    proof {
        reveal_strlit("https://");
        reveal_strlit("http://");
    }
    let n = http_base.unicode_len();
    if starts_with(http_base, "https://") {
        let mut s = String::from_str("wss://");
        s.append(http_base.substring_char(8, n));
        Some(s)
    } else if starts_with(http_base, "http://") {
        let mut s = String::from_str("ws://");
        s.append(http_base.substring_char(7, n));
        Some(s)
    } else {
        None
    }
}

/// Headers that belong to one connection and are not forwarded.
pub open spec fn hop_by_hop(name: Seq<char>) -> bool {
    name == "connection"@ || name == "keep-alive"@ || name == "proxy-authenticate"@ || name
        == "proxy-authorization"@ || name == "te"@ || name == "trailer"@ || name
        == "transfer-encoding"@ || name == "upgrade"@ || name == "host"@ || name
        == "content-length"@
}

pub fn is_hop_by_hop(name: &str) -> (b: bool)
    ensures
        b == hop_by_hop(name@),
{
    same_text(name, "connection") || same_text(name, "keep-alive") || same_text(
        name,
        "proxy-authenticate",
    ) || same_text(name, "proxy-authorization") || same_text(name, "te") || same_text(
        name,
        "trailer",
    ) || same_text(name, "transfer-encoding") || same_text(name, "upgrade") || same_text(
        name,
        "host",
    ) || same_text(name, "content-length")
}

/// The page shown for an error: the message and a link to the lobby.
pub fn error_page(message: &str) -> (s: String)
    ensures
        s@ == "<html><body><h1>"@ + html_escaped(message@) + "</h1><p><a href=\"/\">Lobby</a></p></body></html>"@,
{
    let mut s = String::from_str("<html><body><h1>");
    push_escaped(&mut s, message);
    s.append("</h1><p><a href=\"/\">Lobby</a></p></body></html>");
    s
}

/// A lifecycle as the table prints it.
pub open spec fn lifecycle_text(l: Lifecycle) -> Seq<char> {
    match l {
        Lifecycle::Lobby => "Lobby"@,
        Lifecycle::Running => "Running"@,
        Lifecycle::Paused => "Paused"@,
        Lifecycle::Finished => "Finished"@,
        Lifecycle::Aborted => "Aborted"@,
    }
}

fn lifecycle_str(l: Lifecycle) -> (s: &'static str)
    ensures
        s@ == lifecycle_text(l),
{
    match l {
        Lifecycle::Lobby => "Lobby",
        Lifecycle::Running => "Running",
        Lifecycle::Paused => "Paused",
        Lifecycle::Finished => "Finished",
        Lifecycle::Aborted => "Aborted",
    }
}

/// One player's box on the scoreboard.
pub open spec fn score_box(p: PublicPlayerModel) -> Seq<char> {
    "<div class=\"player seat"@ + decimal((p.seat.0 + 1) as nat) + "\"><strong>"@ + html_escaped(
        p.name,
    ) + "</strong><br>"@ + signed_decimal(p.score as int) + " points<br>"@ + decimal(p.card_count)
        + " cards</div>"@
}

pub open spec fn scoreboard(players: Seq<PublicPlayerModel>) -> Seq<char>
    decreases players.len(),
{
    if players.len() == 0 {
        Seq::empty()
    } else {
        scoreboard(players.drop_last()) + score_box(players.last())
    }
}

/// Cards on the table, one after another.
pub open spec fn cards_markup(cards: Seq<PublicCard>) -> Seq<char>
    decreases cards.len(),
{
    if cards.len() == 0 {
        Seq::empty()
    } else {
        cards_markup(cards.drop_last()) + card_markup_spec(cards.last())
    }
}

/// The cards of a trick, face up.
pub open spec fn trick_cards(plays: Seq<PublicPlayed>) -> Seq<PublicCard> {
    Seq::new(plays.len(), |i: int| PublicCard::Face(plays[i].card))
}

/// The newest twenty events, newest first.
pub open spec fn recent_events(events: Seq<EventModel>) -> Seq<EventModel> {
    let n = if events.len() < 20 {
        events.len()
    } else {
        20
    };
    Seq::new(n, |i: int| events[events.len() - 1 - i])
}

pub open spec fn history_items(events: Seq<EventModel>) -> Seq<char>
    decreases events.len(),
{
    if events.len() == 0 {
        Seq::empty()
    } else {
        history_items(events.drop_last()) + "<li>"@ + html_escaped(events.last().message) + "</li>"@
    }
}

/// `n` card backs.
pub open spec fn backs(n: nat) -> Seq<char>
    decreases n,
{
    if n == 0 {
        Seq::empty()
    } else {
        backs((n - 1) as nat) + card_markup_spec(PublicCard::Back)
    }
}

/// The classic observer table: room, lifecycle, phase and trump, the deal
/// animation as card backs, the scoreboard, the current and last trick, the
/// talon, and the newest twenty public events.
pub open spec fn observer_markup_spec(v: PublicViewModel) -> Seq<char> {
    let phase = match v.game {
        Some(g) => html_escaped(g.phase),
        None => "lobby"@,
    };
    let trump = match v.game {
        Some(g) => match g.trump {
            Some(s) => seq![suit_symbol_spec(s)],
            None => "—"@,
        },
        None => "—"@,
    };
    let current = match v.game {
        Some(g) => cards_markup(trick_cards(g.current_trick)),
        None => Seq::empty(),
    };
    let last = match v.game {
        Some(g) => cards_markup(trick_cards(g.last_trick)),
        None => Seq::empty(),
    };
    let talon = match v.game {
        Some(g) => cards_markup(g.talon),
        None => Seq::empty(),
    };
    let shown = if v.stage == "ready"@ {
        Seq::empty()
    } else {
        backs(v.visible_deal_cards)
    };
    "<h1>"@ + html_escaped(v.room_name) + "</h1><p class=\"status\">"@ + lifecycle_text(v.lifecycle)
        + " · "@ + phase + " · trump "@ + trump + "</p>\n        <p class=\"status\">Presentation: "@
        + html_escaped(v.stage) + " "@ + decimal(v.visible_deal_cards) + "/24</p>\n        <div class=\"cards\">"@
        + shown + "</div>\n        <div class=\"scoreboard\">"@ + scoreboard(v.players)
        + "</div>\n        <div class=\"center\"><h2>Current trick</h2><div class=\"cards\">"@ + current
        + "</div>\n        <h2>Last trick</h2><div class=\"cards\">"@ + last
        + "</div>\n        <h2>Talon</h2><div class=\"cards\">"@ + talon
        + "</div></div>\n        <div class=\"history\"><h2>Public history</h2><ol>"@ + history_items(
        recent_events(v.history),
    ) + "</ol></div>"@
}

fn push_trick(s: &mut String, plays: &Vec<PublicPlayed>)
    ensures
        final(s)@ == old(s)@ + cards_markup(trick_cards(plays@)),
{
    let ghost start = s@;
    let mut i: usize = 0;
    assert(trick_cards(plays@).take(0) =~= Seq::<PublicCard>::empty());
    while i < plays.len()
        invariant
            i <= plays@.len(),
            s@ == start + cards_markup(trick_cards(plays@).take(i as int)),
        decreases plays@.len() - i,
    {
        push_card_markup(s, PublicCard::Face(plays[i].card));
        assert(trick_cards(plays@).take(i as int + 1).drop_last() =~= trick_cards(plays@).take(
            i as int,
        ));
        assert(s@ =~= start + cards_markup(trick_cards(plays@).take(i as int + 1)));
        i = i + 1;
    }
    assert(trick_cards(plays@).take(plays@.len() as int) =~= trick_cards(plays@));
}

fn push_cards_markup(s: &mut String, cards: &Vec<PublicCard>)
    ensures
        final(s)@ == old(s)@ + cards_markup(cards@),
{
    let ghost start = s@;
    let mut i: usize = 0;
    assert(cards@.take(0) =~= Seq::<PublicCard>::empty());
    while i < cards.len()
        invariant
            i <= cards@.len(),
            s@ == start + cards_markup(cards@.take(i as int)),
        decreases cards@.len() - i,
    {
        push_card_markup(s, cards[i]);
        assert(cards@.take(i as int + 1).drop_last() =~= cards@.take(i as int));
        assert(s@ =~= start + cards_markup(cards@.take(i as int + 1)));
        i = i + 1;
    }
    assert(cards@.take(cards@.len() as int) =~= cards@);
}

fn push_scoreboard(s: &mut String, players: &Vec<crate::protocol::PublicPlayer>)
    requires
        forall|i: int| 0 <= i < players@.len() ==> (#[trigger] players@[i]).seat.0 < 255,
    ensures
        final(s)@ == old(s)@ + scoreboard(player_rows(players@)),
{
    let ghost start = s@;
    let ghost rows = player_rows(players@);
    let mut i: usize = 0;
    assert(rows.take(0) =~= Seq::<PublicPlayerModel>::empty());
    while i < players.len()
        invariant
            i <= players@.len(),
            rows == player_rows(players@),
            forall|k: int| 0 <= k < players@.len() ==> (#[trigger] players@[k]).seat.0 < 255,
            s@ == start + scoreboard(rows.take(i as int)),
        decreases players@.len() - i,
    {
        let p = &players[i];
        let ghost before = s@;
        s.append("<div class=\"player seat");
        push_decimal(s, (p.seat.0 + 1) as u64);
        s.append("\"><strong>");
        push_escaped(s, p.name.as_str());
        s.append("</strong><br>");
        push_signed(s, p.score as i64);
        s.append(" points<br>");
        push_decimal(s, p.card_count as u64);
        s.append(" cards</div>");
        assert(s@ =~= before + score_box(rows[i as int]));
        assert(rows.take(i as int + 1).drop_last() =~= rows.take(i as int));
        i = i + 1;
    }
    assert(rows.take(players@.len() as int) =~= rows);
}

fn push_history(s: &mut String, events: &Vec<crate::tysiac::GameEvent>)
    ensures
        final(s)@ == old(s)@ + history_items(recent_events(event_models(events@))),
{
    let ghost start = s@;
    let ghost recent = recent_events(event_models(events@));
    let n = events.len();
    let count = if n < 20 {
        n
    } else {
        20
    };
    let mut i: usize = 0;
    assert(recent.take(0) =~= Seq::<EventModel>::empty());
    while i < count
        invariant
            n == events@.len(),
            count == recent.len(),
            recent == recent_events(event_models(events@)),
            i <= count,
            s@ == start + history_items(recent.take(i as int)),
        decreases count - i,
    {
        let e = &events[n - 1 - i];
        s.append("<li>");
        push_escaped(s, e.message.as_str());
        s.append("</li>");
        assert(recent.take(i as int + 1).drop_last() =~= recent.take(i as int));
        assert(recent[i as int] == events@[n - 1 - i]@);
        i = i + 1;
    }
    assert(recent.take(count as int) =~= recent);
}

fn push_backs(s: &mut String, n: usize)
    ensures
        final(s)@ == old(s)@ + backs(n as nat),
{
    let ghost start = s@;
    let mut i: usize = 0;
    while i < n
        invariant
            i <= n,
            s@ == start + backs(i as nat),
        decreases n - i,
    {
        push_card_markup(s, PublicCard::Back);
        assert(s@ =~= start + backs((i + 1) as nat));
        i = i + 1;
    }
}

pub fn observer_markup(view: &PublicView) -> (s: String)
    requires
        forall|i: int| 0 <= i < view.players@.len() ==> (#[trigger] view.players@[i]).seat.0 < 255,
    ensures
        s@ == observer_markup_spec(view@),
{
    let mut s = String::from_str("<h1>");
    push_escaped(&mut s, view.room_name.as_str());
    s.append("</h1><p class=\"status\">");
    s.append(lifecycle_str(view.lifecycle));
    s.append(" · ");
    match &view.game {
        Some(g) => push_escaped(&mut s, g.phase.as_str()),
        None => s.append("lobby"),
    }
    s.append(" · trump ");
    match &view.game {
        Some(g) => match g.trump {
            Some(suit) => s.append(suit_symbol(suit)),
            None => s.append("—"),
        },
        None => s.append("—"),
    }
    s.append("</p>\n        <p class=\"status\">Presentation: ");
    push_escaped(&mut s, view.presentation.stage.as_str());
    s.append(" ");
    push_decimal(&mut s, view.presentation.visible_deal_cards as u64);
    s.append("/24</p>\n        <div class=\"cards\">");
    if !same_text(view.presentation.stage.as_str(), "ready") {
        push_backs(&mut s, view.presentation.visible_deal_cards);
    }
    s.append("</div>\n        <div class=\"scoreboard\">");
    push_scoreboard(&mut s, &view.players);
    s.append("</div>\n        <div class=\"center\"><h2>Current trick</h2><div class=\"cards\">");
    match &view.game {
        Some(g) => push_trick(&mut s, &g.current_trick),
        None => {},
    }
    s.append("</div>\n        <h2>Last trick</h2><div class=\"cards\">");
    match &view.game {
        Some(g) => push_trick(&mut s, &g.last_trick),
        None => {},
    }
    s.append("</div>\n        <h2>Talon</h2><div class=\"cards\">");
    match &view.game {
        Some(g) => push_cards_markup(&mut s, &g.talon),
        None => {},
    }
    s.append("</div></div>\n        <div class=\"history\"><h2>Public history</h2><ol>");
    push_history(&mut s, &view.history);
    s.append("</ol></div>");
    s
}

/// One room in the lobby list: a link to its table, its name, how many
/// seats are taken, and its lifecycle.
pub open spec fn room_row(name: Seq<char>, seats: nat, lifecycle: Lifecycle) -> Seq<char> {
    "<li><a href=\"room/"@ + url_encoded(encode_utf8(name)) + "\">"@ + html_escaped(name) + "</a> — "@
        + decimal(seats) + "/3 — "@ + lifecycle_text(lifecycle) + "</li>"@
}

pub open spec fn room_rows(rooms: Seq<RoomSummary>) -> Seq<char>
    decreases rooms.len(),
{
    if rooms.len() == 0 {
        Seq::empty()
    } else {
        room_rows(rooms.drop_last()) + room_row(
            rooms.last().name@,
            rooms.last().seats@.len(),
            rooms.last().lifecycle,
        )
    }
}

fn push_room_row(s: &mut String, room: &RoomSummary)
    ensures
        final(s)@ == old(s)@ + room_row(room.name@, room.seats@.len(), room.lifecycle),
{
    let ghost before = s@;
    s.append("<li><a href=\"room/");
    let url = url_encode(room.name.as_str());
    s.append(url.as_str());
    s.append("\">");
    push_escaped(s, room.name.as_str());
    s.append("</a> — ");
    push_decimal(s, room.seats.len() as u64);
    s.append("/3 — ");
    s.append(lifecycle_str(room.lifecycle));
    s.append("</li>");
    assert(s@ =~= before + room_row(room.name@, room.seats@.len(), room.lifecycle));
}

/// The lobby: the list of rooms and the form that creates one; `game_public`
/// is the game server address the page's script talks to.
pub open spec fn lobby_page_spec(rooms: Seq<RoomSummary>, game_public: Seq<char>) -> Seq<char> {
    modern_head_spec("Mille"@, "./"@) + "<body data-page=\"lobby\" data-game-api=\""@ + html_escaped(
        game_public,
    ) + "\">\n        <main class=\"lobby\"><h1>♠ Mille · Tysiąc · Tausend ♥</h1>\n        <label>Language <select id=\"locale\"><option value=\"en\">EN</option><option value=\"de\">DE</option><option value=\"pl\">PL</option></select></label>\n        <section class=\"panel\"><h2 data-i18n=\"rooms\">Rooms</h2><ul>"@ + room_rows(rooms) + "</ul></section>\n        <section class=\"panel\"><h2 data-i18n=\"create\">Create a room</h2>\n        <form id=\"create-room\">\n        <label>Room name <input name=\"name\" maxlength=\"48\" required></label>\n        <label>Player password <input name=\"player_password\" type=\"password\" maxlength=\"128\" required></label>\n        <label>Referee password (optional) <input name=\"referee_password\" type=\"password\" maxlength=\"128\" placeholder=\"Generated if empty\"></label>\n        <label>Seed (optional decimal or 0x…) <input name=\"seed\" inputmode=\"numeric\"></label>\n        <label>Target <input name=\"target_score\" type=\"number\" value=\"1000\" min=\"100\" step=\"10\"></label>\n        <label>Lock <input name=\"lock_score\" type=\"number\" value=\"900\" min=\"0\" step=\"10\"></label>\n        <label>Talon <select name=\"talon_visibility\"><option value=\"always_public\">Always public</option><option value=\"hide_at_one_hundred\">Hide at bid 100</option></select></label>\n        <button type=\"submit\">Create room</button>\n        </form><p id=\"status\"></p></section></main>"@ + "<script src=\"static/app.js\"></script>"@ + "</body></html>"@
}

pub fn lobby_page(rooms: &Vec<RoomSummary>, game_public: &str) -> (s: String)
    ensures
        s@ == lobby_page_spec(rooms@, game_public@),
{
    let mut s = modern_head("Mille", "./");
    s.append("<body data-page=\"lobby\" data-game-api=\"");
    push_escaped(&mut s, game_public);
    s.append("\">\n        <main class=\"lobby\"><h1>♠ Mille · Tysiąc · Tausend ♥</h1>\n        <label>Language <select id=\"locale\"><option value=\"en\">EN</option><option value=\"de\">DE</option><option value=\"pl\">PL</option></select></label>\n        <section class=\"panel\"><h2 data-i18n=\"rooms\">Rooms</h2><ul>");
    let ghost start = s@;
    let mut i: usize = 0;
    assert(rooms@.take(0) =~= Seq::<RoomSummary>::empty());
    while i < rooms.len()
        invariant
            i <= rooms@.len(),
            s@ == start + room_rows(rooms@.take(i as int)),
        decreases rooms@.len() - i,
    {
        push_room_row(&mut s, &rooms[i]);
        assert(rooms@.take(i as int + 1).drop_last() =~= rooms@.take(i as int));
        assert(s@ =~= start + room_rows(rooms@.take(i as int + 1)));
        i = i + 1;
    }
    assert(rooms@.take(rooms@.len() as int) =~= rooms@);
    s.append("</ul></section>\n        <section class=\"panel\"><h2 data-i18n=\"create\">Create a room</h2>\n        <form id=\"create-room\">\n        <label>Room name <input name=\"name\" maxlength=\"48\" required></label>\n        <label>Player password <input name=\"player_password\" type=\"password\" maxlength=\"128\" required></label>\n        <label>Referee password (optional) <input name=\"referee_password\" type=\"password\" maxlength=\"128\" placeholder=\"Generated if empty\"></label>\n        <label>Seed (optional decimal or 0x…) <input name=\"seed\" inputmode=\"numeric\"></label>\n        <label>Target <input name=\"target_score\" type=\"number\" value=\"1000\" min=\"100\" step=\"10\"></label>\n        <label>Lock <input name=\"lock_score\" type=\"number\" value=\"900\" min=\"0\" step=\"10\"></label>\n        <label>Talon <select name=\"talon_visibility\"><option value=\"always_public\">Always public</option><option value=\"hide_at_one_hundred\">Hide at bid 100</option></select></label>\n        <button type=\"submit\">Create room</button>\n        </form><p id=\"status\"></p></section></main>");
    s.append(scripts());
    s.append("</body></html>");
    s
}

/// The classic observer page: the table of [`observer_markup`] and a join
/// form; it refreshes itself every two seconds.
pub open spec fn observer_page_spec(view: PublicViewModel, room: Seq<char>, game_public: Seq<char>) -> Seq<char> {
    "<!DOCTYPE html PUBLIC \"-//W3C//DTD HTML 4.01 Transitional//EN\">\n        <html><head><meta http-equiv=\"Content-Type\" content=\"text/html; charset=utf-8\">\n        <meta http-equiv=\"refresh\" content=\"2\"><title>"@ + html_escaped(view.room_name + " — Mille"@) + "</title><base href=\"../\">\n        <link rel=\"stylesheet\" href=\"static/observer.css\" type=\"text/css\"></head>\n        <body data-page=\"observer\" data-room=\""@ + html_escaped(room)
        + "\" data-game-api=\""@ + html_escaped(game_public) + "\">\n        <div id=\"table\">"@ + observer_markup_spec(view)
        + "</div>\n        <div class=\"join\"><form id=\"join-room\"><strong>Join this table:</strong>\n        <label>Name <input name=\"name\" maxlength=\"48\"></label>\n        <label>Password or token <input name=\"password_or_token\" type=\"password\" maxlength=\"128\"></label>\n        <input type=\"submit\" value=\"Join\"><span id=\"join-status\"></span></form></div>\n        <script type=\"text/javascript\" src=\"static/observer.js\"></script></body></html>"@
}

pub fn observer_page(view: &PublicView, room: &str, game_public: &str) -> (s: String)
    requires
        forall|i: int| 0 <= i < view.players@.len() ==> (#[trigger] view.players@[i]).seat.0 < 255,
    ensures
        s@ == observer_page_spec(view@, room@, game_public@),
{
    let mut title = view.room_name.clone();
    title.append(" — Mille");
    let mut s = String::from_str("<!DOCTYPE html PUBLIC \"-//W3C//DTD HTML 4.01 Transitional//EN\">\n        <html><head><meta http-equiv=\"Content-Type\" content=\"text/html; charset=utf-8\">\n        <meta http-equiv=\"refresh\" content=\"2\"><title>");
    push_escaped(&mut s, title.as_str());
    s.append("</title><base href=\"../\">\n        <link rel=\"stylesheet\" href=\"static/observer.css\" type=\"text/css\"></head>\n        <body data-page=\"observer\" data-room=\"");
    push_escaped(&mut s, room);
    s.append("\" data-game-api=\"");
    push_escaped(&mut s, game_public);
    s.append("\">\n        <div id=\"table\">");
    let body = observer_markup(view);
    s.append(body.as_str());
    s.append("</div>\n        <div class=\"join\"><form id=\"join-room\"><strong>Join this table:</strong>\n        <label>Name <input name=\"name\" maxlength=\"48\"></label>\n        <label>Password or token <input name=\"password_or_token\" type=\"password\" maxlength=\"128\"></label>\n        <input type=\"submit\" value=\"Join\"><span id=\"join-status\"></span></form></div>\n        <script type=\"text/javascript\" src=\"static/observer.js\"></script></body></html>");
    s
}

/// The referee desk of a room.
pub open spec fn referee_page_spec(room: Seq<char>, game_public: Seq<char>) -> Seq<char> {
    modern_head_spec("Referee — "@ + room, "../../"@) + "<body data-page=\"referee\" data-room=\""@ + html_escaped(room) + "\" data-game-api=\""@
        + html_escaped(game_public) + "\">\n        <main class=\"game-shell\">\n        <header><a href=\"room/"@ + url_encoded(encode_utf8(room)) + "\">← observer</a><h1>Referee · "@
        + html_escaped(room) + "</h1>\n        <select id=\"locale\"><option value=\"en\">EN</option><option value=\"de\">DE</option><option value=\"pl\">PL</option></select></header>\n        <section id=\"auth\" class=\"panel\"><label>Referee password <input id=\"credential\" type=\"password\"></label><button id=\"connect\">Open table</button></section>\n        <section id=\"admin\" class=\"toolbar hidden\"><button data-admin=\"pause\">Pause</button><button data-admin=\"resume\">Resume</button><button data-admin=\"abort\">Abort</button><button data-admin=\"rematch\">Rematch</button><button data-admin=\"advance_presentation\">Skip animation</button></section>\n        <section id=\"view\" class=\"felt\"></section><details><summary>Omniscient state and history</summary><pre id=\"raw\"></pre></details>\n        <p id=\"status\"></p></main>"@ + "<script src=\"static/app.js\"></script>"@ + "</body></html>"@
}

pub fn referee_page(room: &str, game_public: &str) -> (s: String)
    ensures
        s@ == referee_page_spec(room@, game_public@),
{
    let mut title = String::from_str("Referee — ");
    title.append(room);
    let mut s = modern_head(title.as_str(), "../../");
    s.append("<body data-page=\"referee\" data-room=\"");
    push_escaped(&mut s, room);
    s.append("\" data-game-api=\"");
    push_escaped(&mut s, game_public);
    s.append("\">\n        <main class=\"game-shell\">\n        <header><a href=\"room/");
    let url = url_encode(room);
    s.append(url.as_str());
    s.append("\">← observer</a><h1>Referee · ");
    push_escaped(&mut s, room);
    s.append("</h1>\n        <select id=\"locale\"><option value=\"en\">EN</option><option value=\"de\">DE</option><option value=\"pl\">PL</option></select></header>\n        <section id=\"auth\" class=\"panel\"><label>Referee password <input id=\"credential\" type=\"password\"></label><button id=\"connect\">Open table</button></section>\n        <section id=\"admin\" class=\"toolbar hidden\"><button data-admin=\"pause\">Pause</button><button data-admin=\"resume\">Resume</button><button data-admin=\"abort\">Abort</button><button data-admin=\"rematch\">Rematch</button><button data-admin=\"advance_presentation\">Skip animation</button></section>\n        <section id=\"view\" class=\"felt\"></section><details><summary>Omniscient state and history</summary><pre id=\"raw\"></pre></details>\n        <p id=\"status\"></p></main>");
    s.append(scripts());
    s.append("</body></html>");
    s
}

/// A player's table page; only seats one to three exist.
pub open spec fn player_page_spec(room: Seq<char>, seat: u8, name: Seq<char>, game_public: Seq<char>) -> Option<Seq<char>> {
    if 1 <= seat <= 3 {
        Some(
            modern_head_spec(name + " — "@ + room, "../../../../"@) + "<body data-page=\"player\" data-room=\""@ + html_escaped(room)
                + "\" data-seat=\""@ + decimal((seat - 1) as nat) + "\" data-name=\""@ + html_escaped(name) + "\" data-game-api=\""@
                + html_escaped(game_public) + "\">\n        <main class=\"game-shell\"><header><a href=\"room/"@ + url_encoded(encode_utf8(room)) + "\">← observer</a>\n        <h1>"@
                + html_escaped(name) + " · seat "@ + decimal(seat as nat) + "</h1><select id=\"locale\"><option value=\"en\">EN</option><option value=\"de\">DE</option><option value=\"pl\">PL</option></select></header>\n        <section id=\"auth\" class=\"panel\"><label>Password or seat token <input id=\"credential\" type=\"password\"></label><button id=\"connect\">Sit down</button></section>\n        <section id=\"view\" class=\"felt\"></section><section id=\"hand\" class=\"hand\"></section><section id=\"actions\" class=\"toolbar\"></section>\n        <p id=\"status\"></p></main>"@ + "<script src=\"static/app.js\"></script>"@
                + "</body></html>"@,
        )
    } else {
        None
    }
}

pub fn player_page(room: &str, seat: u8, name: &str, game_public: &str) -> (r: Option<String>)
    ensures
        match r {
            Some(s) => player_page_spec(room@, seat, name@, game_public@) == Some(s@),
            None => player_page_spec(room@, seat, name@, game_public@) is None,
        },
{
    if !(1 <= seat && seat <= 3) {
        return None;
    }
    let mut title = String::from_str(name);
    title.append(" — ");
    title.append(room);
    let mut s = modern_head(title.as_str(), "../../../../");
    s.append("<body data-page=\"player\" data-room=\"");
    push_escaped(&mut s, room);
    s.append("\" data-seat=\"");
    push_decimal(&mut s, (seat - 1) as u64);
    s.append("\" data-name=\"");
    push_escaped(&mut s, name);
    s.append("\" data-game-api=\"");
    push_escaped(&mut s, game_public);
    s.append("\">\n        <main class=\"game-shell\"><header><a href=\"room/");
    let url = url_encode(room);
    s.append(url.as_str());
    s.append("\">← observer</a>\n        <h1>");
    push_escaped(&mut s, name);
    s.append(" · seat ");
    push_decimal(&mut s, seat as u64);
    s.append("</h1><select id=\"locale\"><option value=\"en\">EN</option><option value=\"de\">DE</option><option value=\"pl\">PL</option></select></header>\n        <section id=\"auth\" class=\"panel\"><label>Password or seat token <input id=\"credential\" type=\"password\"></label><button id=\"connect\">Sit down</button></section>\n        <section id=\"view\" class=\"felt\"></section><section id=\"hand\" class=\"hand\"></section><section id=\"actions\" class=\"toolbar\"></section>\n        <p id=\"status\"></p></main>");
    s.append(scripts());
    s.append("</body></html>");
    Some(s)
}

/// The part of a request path after the proxy's `/game-api` prefix.
pub open spec fn game_api_path_spec(path: Seq<char>) -> Option<Seq<char>> {
    if path.len() >= 9 && path.take(9) == "/game-api"@ {
        Some(path.skip(9))
    } else {
        None
    }
}

pub fn game_api_path(path: &str) -> (r: Option<&str>)
    ensures
        match r {
            Some(p) => game_api_path_spec(path@) == Some(p@),
            None => game_api_path_spec(path@) is None,
        },
{
    proof {
        reveal_strlit("/game-api");
    }
    if starts_with(path, "/game-api") {
        Some(path.substring_char(9, path.unicode_len()))
    } else {
        None
    }
}

/// A base address without its trailing slashes.
pub open spec fn without_trailing_slashes(s: Seq<char>) -> Seq<char>
    decreases s.len(),
{
    if s.len() > 0 && s.last() == '/' {
        without_trailing_slashes(s.drop_last())
    } else {
        s
    }
}

fn push_without_trailing_slashes(s: &mut String, base: &str)
    ensures
        final(s)@ == old(s)@ + without_trailing_slashes(base@),
{
    let mut n = base.unicode_len();
    assert(base@.take(n as int) =~= base@);
    while n > 0 && base.get_char(n - 1) == '/'
        invariant
            n <= base@.len(),
            without_trailing_slashes(base@.take(n as int)) == without_trailing_slashes(base@),
        decreases n,
    {
        assert(base@.take(n as int).drop_last() =~= base@.take(n - 1));
        n = n - 1;
    }
    let head = base.substring_char(0, n);
    assert(head@ =~= base@.take(n as int));
    s.append(head);
}

/// An address with the request's query string, if it has one.
pub open spec fn with_query(url: Seq<char>, query: Option<&str>) -> Seq<char> {
    match query {
        Some(q) => url + "?"@ + q@,
        None => url,
    }
}

/// Where the proxy forwards an API request: the game server's internal
/// address, the path after `/game-api`, and the query.
pub fn upstream_http_url(internal: &str, path: &str, query: Option<&str>) -> (u: String)
    ensures
        u@ == with_query(without_trailing_slashes(internal@) + path@, query),
{
    let mut u = String::new();
    push_without_trailing_slashes(&mut u, internal);
    u.append(path);
    match query {
        Some(q) => {
            u.append("?");
            u.append(q);
        },
        None => {},
    }
    u
}

/// Where the proxy opens a room's socket: the game server's WebSocket
/// address, `/ws/` and the room name percent-encoded, and the query.
pub open spec fn upstream_ws_url_spec(internal: Seq<char>, room: Seq<char>, query: Option<&str>) -> Option<Seq<char>> {
    match websocket_base_spec(internal) {
        Some(base) => Some(
            with_query(
                without_trailing_slashes(base) + "/ws/"@ + url_encoded(encode_utf8(room)),
                query,
            ),
        ),
        None => None,
    }
}

pub fn upstream_ws_url(internal: &str, room: &str, query: Option<&str>) -> (r: Option<String>)
    ensures
        match r {
            Some(u) => upstream_ws_url_spec(internal@, room@, query) == Some(u@),
            None => upstream_ws_url_spec(internal@, room@, query) is None,
        },
{
    let base = match websocket_base(internal) {
        Some(b) => b,
        None => {
            return None;
        },
    };
    let mut u = String::new();
    push_without_trailing_slashes(&mut u, base.as_str());
    u.append("/ws/");
    let encoded = url_encode(room);
    u.append(encoded.as_str());
    match query {
        Some(q) => {
            u.append("?");
            u.append(q);
        },
        None => {},
    }
    Some(u)
}

/// The game server's room list.
pub fn rooms_url(internal: &str) -> (u: String)
    ensures
        u@ == internal@ + "/api/rooms"@,
{
    let mut u = String::from_str(internal);
    u.append("/api/rooms");
    u
}

/// The game server's observer view of a room.
pub fn observer_view_url(internal: &str, room: &str) -> (u: String)
    ensures
        u@ == internal@ + "/api/rooms/"@ + url_encoded(encode_utf8(room@)) + "/view?role=observer"@,
{
    let mut u = String::from_str(internal);
    u.append("/api/rooms/");
    let encoded = url_encode(room);
    u.append(encoded.as_str());
    u.append("/view?role=observer");
    u
}

/// Escaped text holds none of the characters that end content or an
/// attribute value: no `<`, `>`, `"` or `'`.
pub proof fn lemma_escaped_html_has_no_markup(s: Seq<char>)
    ensures
        forall|i: int|
            0 <= i < html_escaped(s).len() ==> {
                let c = #[trigger] html_escaped(s)[i];
                c != '<' && c != '>' && c != '"' && c != '\''
            },
    decreases s.len(),
{
    reveal_strlit("&amp;");
    reveal_strlit("&lt;");
    reveal_strlit("&gt;");
    reveal_strlit("&quot;");
    reveal_strlit("&#39;");
    if s.len() > 0 {
        lemma_escaped_html_has_no_markup(s.drop_last());
        let head = html_escaped(s.drop_last());
        let tail = html_char(s.last());
        assert(html_escaped(s) == head + tail);
        assert forall|i: int| 0 <= i < html_escaped(s).len() implies {
            let c = #[trigger] html_escaped(s)[i];
            c != '<' && c != '>' && c != '"' && c != '\''
        } by {
            if i < head.len() {
                assert(html_escaped(s)[i] == head[i]);
            } else {
                assert(html_escaped(s)[i] == tail[i - head.len()]);
            }
        }
    }
}

} // verus!
