use pumpkin_gui::client::protocol_mismatch;
use pumpkin_gui::dev_tools::{env_i32_value, parse_i32};
use pumpkin_gui::protocol::{PlayerRow, PluginKind, PluginRow, PluginState, ThemePreference};
use pumpkin_gui::tabs::performance::grid_shape;
use pumpkin_gui::tabs::players::{
    self, actions, all_views, dialog_text, dimension_counts, edition_pill, empty_text, online_text,
    ping_text, Reason, View,
};
use pumpkin_gui::tabs::plugins::{self, counts, state_pill, Actions, CANNOT_UNLOAD, NOT_READY};
use pumpkin_gui::tabs::worlds::weather_label;
use pumpkin_gui::window::{
    all_tabs, attach_request, console_key, count_online, dark_for, header_title, stops_on_close,
    ConsoleKey, Key, Tab, Tone,
};

fn player(name: &str, dimension: &str, online: bool) -> PlayerRow {
    PlayerRow {
        name: name.to_owned(),
        uuid: "0f2c-AB".to_owned(),
        edition: "java".to_owned(),
        ping_ms: 42,
        dimension: dimension.to_owned(),
        gamemode: "survival".to_owned(),
        online,
        online_secs: 3661,
        operator: false,
        banned: !online,
        whitelisted: false,
    }
}

fn plugin(name: &str, state: PluginState, can_unload: bool) -> PluginRow {
    PluginRow {
        name: name.to_owned(),
        version: "1.0".to_owned(),
        description: "Anti Cheat".to_owned(),
        authors: vec![],
        dependencies: vec![],
        permissions: vec![],
        path: "plugins/tiny.wasm".to_owned(),
        kind: PluginKind::Wasm,
        state,
        can_unload,
    }
}

#[test]
fn tabs_are_labelled_in_order() {
    assert_eq!(
        all_tabs().iter().map(|t| t.label()).collect::<Vec<_>>(),
        vec!["Overview", "Performance", "Worlds", "Players", "Plugins"]
    );
    assert_eq!(Tab::Worlds.label(), "Worlds");
}

#[test]
fn window_decisions() {
    assert!(dark_for(false, ThemePreference::Dark));
    assert!(!dark_for(true, ThemePreference::Light));
    assert!(dark_for(true, ThemePreference::System));
    assert!(stops_on_close(true, true));
    assert!(!stops_on_close(false, true));
    assert_eq!(attach_request("  /tmp/p.sock "), Some("/tmp/p.sock".to_owned()));
    assert_eq!(attach_request("   "), None);
    assert_eq!(header_title(true, "0.1"), "Pumpkin 0.1");
    assert_eq!(header_title(false, "0.1"), "Starting…");
    assert_eq!(count_online(&[player("a", "", true), player("b", "", false)]), 1);
    assert_eq!(console_key(true, true, true, Key::ArrowUp), Some(ConsoleKey::HistoryPrev));
    assert_eq!(console_key(true, true, true, Key::Tab), Some(ConsoleKey::Complete));
    assert_eq!(console_key(true, false, true, Key::ArrowUp), None);
    assert_eq!(console_key(true, true, false, Key::ArrowDown), None);
}

#[test]
fn player_views_and_search() {
    assert_eq!(all_views().len(), 5);
    assert_eq!(View::Banned.label(), "Banned");
    assert_eq!(View::Online.empty_message(), "No players online.");
    let steve = player("Steve", "minecraft:overworld", true);
    assert!(View::Online.contains(&steve));
    assert!(!View::Offline.contains(&steve));
    let mut state = players::State::new();
    assert!(state.matches(&steve));
    state.search = "STE".to_owned();
    assert!(state.matches(&steve));
    state.search = "ab".to_owned();
    assert!(state.matches(&steve));
    state.search = "alex".to_owned();
    assert!(!state.matches(&steve));
    assert_eq!(empty_text(View::Online, "alex"), "No player matches “alex”.");
    assert_eq!(empty_text(View::Operator, ""), "No operators.");
}

#[test]
fn player_actions_build_commands() {
    let mut state = players::State::new();
    assert_eq!(players::update(&mut state, players::Message::Op("Steve".into())), Some("op Steve".to_owned()));
    assert_eq!(
        players::update(&mut state, players::Message::Unwhitelist("Some One".into())),
        Some("whitelist remove \"Some One\"".to_owned())
    );
    let _ = players::update(&mut state, players::Message::WhitelistFieldChanged("  Alex ".into()));
    assert_eq!(players::update(&mut state, players::Message::AddWhitelist), Some("whitelist add Alex".to_owned()));
    assert_eq!(state.whitelist_name, "");
    let _ = players::update(&mut state, players::Message::AskReason(Reason::Ban, "Steve".into()));
    let _ = players::update(&mut state, players::Message::ReasonChanged(" griefing\n".into()));
    assert_eq!(players::update(&mut state, players::Message::ConfirmReason), Some("ban Steve griefing".to_owned()));
    assert!(state.asking.is_none());
    assert_eq!(players::update(&mut state, players::Message::ConfirmReason), None);
    assert_eq!(Reason::Kick.command(), "kick");
    let row = actions(View::Online, "Steve");
    assert_eq!(row.iter().map(|a| a.label).collect::<Vec<_>>(), vec!["Op", "Kick", "Ban"]);
    assert_eq!(row[1].tone, Tone::Warn);
    assert_eq!(actions(View::Banned, "x")[0].label, "Pardon");
    let (title, explain, confirm) = dialog_text(Reason::Kick, "Steve");
    assert_eq!((title.as_str(), explain, confirm), ("Kick Steve", "The player is disconnected and may rejoin.", "Kick"));
}

#[test]
fn player_cells() {
    let on = player("a", "minecraft:the_nether", true);
    let off = player("b", "", false);
    assert_eq!(ping_text(&on), "42 ms");
    assert_eq!(ping_text(&off), "–");
    assert_eq!(online_text(&on), "1h 1m");
    assert_eq!(online_text(&off), "–");
    assert_eq!(edition_pill("bedrock"), Some(("Bedrock", Tone::Good)));
    assert_eq!(edition_pill("java"), Some(("Java", Tone::Accent)));
    assert_eq!(edition_pill("other"), None);
}

#[test]
fn dimension_chips_count_and_sort() {
    let a = player("a", "minecraft:the_nether", true);
    let b = player("b", "minecraft:overworld", true);
    let c = player("c", "minecraft:the_nether", true);
    let d = player("d", "", true);
    let e = player("e", "custom:moon", true);
    let counted = dimension_counts(&[&a, &b, &c, &d, &e]);
    assert_eq!(
        counted,
        vec![("custom:moon".to_owned(), 1), ("overworld".to_owned(), 1), ("the_nether".to_owned(), 2)]
    );
    assert!(dimension_counts(&[]).is_empty());
    let nowhere = player("Ghost", "", true);
    let limbo = player("Shade", "", false);
    assert!(dimension_counts(&[&nowhere, &limbo]).is_empty());
    assert!(dimension_counts(&[&nowhere, &limbo, &a]).iter().all(|(_, n)| *n > 0));
}

#[test]
fn plugin_page() {
    let mut state = plugins::State::new();
    assert_eq!(plugins::update(&mut state, plugins::Message::Toggle("A".into())), None);
    assert_eq!(state.expanded.as_deref(), Some("A"));
    let _ = plugins::update(&mut state, plugins::Message::Toggle("A".into()));
    assert_eq!(state.expanded, None);
    assert_eq!(
        plugins::update(&mut state, plugins::Message::Load("plugins/TinyAC_[BETA].wasm".into())),
        Some("plugin load \"plugins/TinyAC_[BETA].wasm\"".to_owned())
    );
    assert_eq!(plugins::update(&mut state, plugins::Message::Reload("tiny".into())), Some("plugin reload tiny".to_owned()));
    let _ = plugins::update(&mut state, plugins::Message::AskUnload("tiny".into()));
    assert_eq!(plugins::update(&mut state, plugins::Message::ConfirmUnload), Some("plugin unload tiny".to_owned()));
    assert_eq!(state.unloading, None);
    assert_eq!(
        plugins::update(&mut state, plugins::Message::SetHotReload(false)),
        Some("plugin hotreload disable".to_owned())
    );
    let p = plugin("Tiny", PluginState::Loaded, false);
    state.search = "anti".to_owned();
    assert!(state.matches(&p));
    state.search = "zzz".to_owned();
    assert!(!state.matches(&p));
    assert_eq!(state_pill(&p), ("Active", Tone::Good));
    assert_eq!(state_pill(&plugin("x", PluginState::Failed("e".into()), true)), ("Failed", Tone::Danger));
    assert!(matches!(plugins::actions(&p, true), Actions::ReloadUnload { enabled: false, hint: Some(h) } if h == CANNOT_UNLOAD));
    assert!(matches!(plugins::actions(&p, false), Actions::ReloadUnload { enabled: false, hint: Some(h) } if h == NOT_READY));
    assert!(matches!(plugins::actions(&plugin("x", PluginState::Unloaded, true), true), Actions::Load { enabled: true }));
    assert!(matches!(plugins::actions(&plugin("x", PluginState::Loading, true), true), Actions::Nothing));
    assert_eq!(counts(&[p, plugin("y", PluginState::Unloaded, true)]), (1, 1));
    assert_eq!(plugins::confirm_text("tiny"), "Unload “tiny”? Anything it registered stops working immediately.");
}

#[test]
fn worlds_and_grid() {
    assert_eq!(weather_label("rain"), "Rain");
    assert_eq!(weather_label("none"), "–");
    assert_eq!(weather_label("snow"), "snow");
    assert_eq!(grid_shape(0), (1, 0));
    assert_eq!(grid_shape(4), (2, 0));
    assert_eq!(grid_shape(6), (2, 0));
    assert_eq!(grid_shape(10), (3, 2));
    assert_eq!(grid_shape(200), (8, 0));
    assert_eq!(grid_shape(203), (8, 5));
}

#[test]
fn integer_settings_parse_like_std() {
    for s in ["0", "+7", "-12", "2147483647", "-2147483648", "2147483648", "", "-", "+", "1a", " 1", "99999999999"] {
        assert_eq!(parse_i32(s), s.parse::<i32>().ok(), "input {s:?}");
    }
    assert_eq!(env_i32_value(Some(" 250 "), 1500), 250);
    assert_eq!(env_i32_value(Some("soon"), 1500), 1500);
    assert_eq!(env_i32_value(None, 3), 3);
}

#[test]
fn a_protocol_mismatch_names_both_versions() {
    assert_eq!(protocol_mismatch(3, 3), None);
    let text = protocol_mismatch(4, 3).unwrap();
    assert_eq!(text, "the server speaks GUI protocol v4, this window speaks v3; rebuild both from the same source");
}
