use mille::cards::{Card, Rank, Suit};
use mille::protocol::{Lifecycle, PresentationView, PublicCard, PublicGame, PublicPlayer, PublicView};
use mille::server::lobby::RoomSummary;
use mille::tysiac::{Config, GameEvent, EventKind, Seat};
use mille::web::{
    card_markup, error_page, escape, escape_attr, game_api_path, is_hop_by_hop, lobby_page,
    modern_head, observer_markup, observer_page, observer_view_url, player_page, referee_page,
    rooms_url, scripts, suit_symbol, upstream_http_url, upstream_ws_url, websocket_base,
};

fn table_view() -> PublicView {
    PublicView {
        room_name: "<table>".into(),
        revision: 1,
        lifecycle: Lifecycle::Running,
        config: Config::default(),
        players: vec![PublicPlayer {
            seat: Seat(0),
            name: "Ada & Bert".into(),
            score: 44,
            connected: true,
            card_count: 7,
        }],
        game: Some(PublicGame {
            phase: "auction".into(),
            dealer: Seat(0),
            turn: Some(Seat(1)),
            contractor: Some(Seat(1)),
            bid_or_contract: Some(100),
            trump: None,
            current_trick: Vec::new(),
            last_trick: Vec::new(),
            open_hands: Vec::new(),
            talon: vec![PublicCard::Back; 3],
        }),
        presentation: PresentationView { stage: "dealing".into(), visible_deal_cards: 4, input_blocked: true },
        history: Vec::new(),
    }
}

#[test]
fn classic_observer_renders_backs_scores_and_escapes_names() {
    let view = table_view();
    let html = observer_markup(&view);
    assert!(html.contains("&lt;table&gt;"));
    assert!(html.contains("Ada &amp; Bert"));
    assert_eq!(html.matches("card back").count(), 7);
}

#[test]
fn html_escaping_covers_all_markup_characters() {
    assert_eq!(escape("<&>\"'"), "&lt;&amp;&gt;&quot;&#39;");
}

#[test]
fn pages_use_relative_assets_below_a_proxy_prefix() {
    let lobby = modern_head("Mille", "./");
    assert!(lobby.contains("<base id=\"app-base\" href=\"./\">"));
    assert!(lobby.contains("b.href=p+'/'"));
    assert!(lobby.contains("href=\"static/app.css\""));
    assert!(!lobby.contains("href=\"/static/"));

    let player = modern_head("Player", "../../../../");
    assert!(player.contains("<base id=\"app-base\" href=\"../../../../\">"));
    assert!(!player.contains("b.href=p+'/'"));
    assert_eq!(scripts(), "<script src=\"static/app.js\"></script>");
}

#[test]
fn websocket_proxy_preserves_transport_security() {
    assert_eq!(websocket_base("https://game.example/engine"), Some("wss://game.example/engine".to_owned()));
    assert_eq!(websocket_base("http://127.0.0.1:4100"), Some("ws://127.0.0.1:4100".to_owned()));
    assert_eq!(websocket_base("ftp://game.example"), None);
}

#[test]
fn observer_table_is_exact() {
    let mut view = table_view();
    view.presentation.stage = "ready".into();
    view.game.as_mut().unwrap().trump = Some(Suit::Hearts);
    view.game.as_mut().unwrap().talon = vec![PublicCard::Face(Card { rank: Rank::Ten, suit: Suit::Hearts })];
    view.history = (0..25)
        .map(|i| GameEvent { kind: EventKind::Play, message: format!("e{i}") })
        .collect();
    let html = observer_markup(&view);
    assert!(html.starts_with("<h1>&lt;table&gt;</h1><p class=\"status\">Running · auction · trump ♥</p>"));
    assert!(html.contains("Presentation: ready 4/24</p>\n        <div class=\"cards\"></div>"));
    assert!(html.contains("<div class=\"player seat1\"><strong>Ada &amp; Bert</strong><br>44 points<br>7 cards</div>"));
    assert!(html.contains("<h2>Talon</h2><div class=\"cards\"><span class=\"card red\"><b>10</b><i>♥</i></span></div>"));
    assert!(html.contains("<ol><li>e24</li><li>e23</li>"));
    assert!(html.ends_with("<li>e5</li></ol></div>"));
    assert!(!html.contains("<li>e4</li>"));
}

#[test]
fn lobby_table_without_a_game() {
    let mut view = table_view();
    view.game = None;
    view.lifecycle = Lifecycle::Lobby;
    view.players[0].score = -60;
    let html = observer_markup(&view);
    assert!(html.contains("Lobby · lobby · trump —"));
    assert!(html.contains("-60 points"));
}

#[test]
fn cards_and_suits() {
    assert_eq!(card_markup(PublicCard::Back), "<span class=\"card back\"><span>♠</span></span>");
    assert_eq!(
        card_markup(PublicCard::Face(Card { rank: Rank::Queen, suit: Suit::Clubs })),
        "<span class=\"card black\"><b>Q</b><i>♣</i></span>"
    );
    assert_eq!(suit_symbol(Suit::Diamonds), "♦");
    assert_eq!(escape_attr("a\"b"), "a&quot;b");
}

#[test]
fn proxy_addresses() {
    assert_eq!(game_api_path("/game-api/api/rooms"), Some("/api/rooms"));
    assert_eq!(game_api_path("/api/rooms"), None);
    assert_eq!(upstream_http_url("http://h:1//", "/api/rooms", Some("a=1")), "http://h:1/api/rooms?a=1");
    assert_eq!(upstream_http_url("http://h:1", "/x", None), "http://h:1/x");
    assert_eq!(
        upstream_ws_url("https://g.example/", "a b", Some("role=observer")),
        Some("wss://g.example/ws/a%20b?role=observer".to_owned())
    );
    assert_eq!(upstream_ws_url("ftp://g", "a", None), None);
    assert_eq!(rooms_url("http://h"), "http://h/api/rooms");
    assert_eq!(observer_view_url("http://h", "my room"), "http://h/api/rooms/my%20room/view?role=observer");
    assert!(is_hop_by_hop("connection"));
    assert!(is_hop_by_hop("content-length"));
    assert!(!is_hop_by_hop("content-type"));
}

#[test]
fn pages_link_and_escape() {
    let rooms = vec![RoomSummary { name: "A&B".into(), seats: vec!["x".into()], lifecycle: Lifecycle::Lobby }];
    let lobby = lobby_page(&rooms, "");
    assert!(lobby.contains("<li><a href=\"room/A%26B\">A&amp;B</a> — 1/3 — Lobby</li>"));
    assert!(lobby.ends_with("<script src=\"static/app.js\"></script></body></html>"));
    let referee = referee_page("t 1", "http://g");
    assert!(referee.contains("<a href=\"room/t%201\">← observer</a><h1>Referee · t 1</h1>"));
    assert!(referee.contains("data-game-api=\"http://g\""));
    assert!(player_page("t", 0, "Ada", "").is_none());
    assert!(player_page("t", 4, "Ada", "").is_none());
    let player = player_page("t", 2, "Ada", "").unwrap();
    assert!(player.contains("data-seat=\"1\" data-name=\"Ada\""));
    assert!(player.contains("<h1>Ada · seat 2</h1>"));
    let observer = observer_page(&table_view(), "t", "");
    assert!(observer.contains("<title>&lt;table&gt; — Mille</title>"));
    assert!(error_page("<x>").contains("<h1>&lt;x&gt;</h1>"));
}
