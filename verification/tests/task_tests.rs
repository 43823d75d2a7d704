use decker::pane::Pane;
use decker::pane_manager::PaneManager;
use decker::task::{how_many_mains, read_period, PaneDefinition, Task, TerminalLocation, TerminalSize};

fn task(period: Option<&str>) -> Task {
    Task {
        id: "t".to_string(),
        name: "a task".to_string(),
        command: "ls".to_string(),
        path: ".".to_string(),
        period: period.map(|p| p.to_string()),
        period_secs: None,
    }
}

#[test]
fn periods_are_read_in_seconds() {
    assert_eq!(read_period("30"), Some(30));
    assert_eq!(read_period("30s"), Some(30));
    assert_eq!(read_period("5m"), Some(300));
    assert_eq!(read_period("2h"), Some(7200));
    assert_eq!(read_period("every 15m"), Some(900));
    assert_eq!(read_period("1h30m"), Some(60));
    assert_eq!(read_period("soon"), None);
    assert_eq!(read_period(""), None);
    assert_eq!(read_period("18446744073709551615"), Some(u64::MAX));
    assert_eq!(read_period("18446744073709551616"), None);
    assert_eq!(read_period("18446744073709551615m"), None);
}

#[test]
fn the_period_is_worked_out_once() {
    let mut t = task(Some("10m"));
    assert!(t.period_is_readable());
    assert!(t.ready_to_run(0));
    t.cache_period();
    assert_eq!(t.period_secs, Some(600));
    assert!(!t.ready_to_run(600));
    assert!(t.ready_to_run(601));
    t.period = Some("1h".to_string());
    t.cache_period();
    assert_eq!(t.period_secs, Some(600));

    let mut once = task(None);
    once.cache_period();
    assert_eq!(once.period_secs, None);
    assert!(once.ready_to_run(0));
    assert!(!task(Some("never")).period_is_readable());
}

#[test]
fn main_panes_are_counted() {
    let pane = |id: &str| PaneDefinition { task_id: id.to_string(), x: 1, y: 1, height: 2, width: 3 };
    assert!(pane("main").is_main());
    assert!(!pane("Main").is_main());
    assert_eq!(how_many_mains(&vec![]), 0);
    assert_eq!(how_many_mains(&vec![pane("a"), pane("main"), pane("b")]), 1);
    assert_eq!(how_many_mains(&vec![pane("main"), pane("main")]), 2);
    let at = TerminalLocation::new(3, 4);
    assert_eq!((at.top, at.left), (3, 4));
    let size = TerminalSize::new(5, 6);
    assert_eq!((size.height, size.width), (5, 6));
}

#[test]
fn the_manager_draws_its_panes_and_places_the_cursor() {
    let mut manager = PaneManager::new();
    manager.register("main".to_string(), Pane::new("main", 1, 1, 2, 4));
    manager.register("side".to_string(), Pane::new("side", 6, 1, 2, 3));
    assert!(manager.find_by_id("main").is_some());
    assert!(manager.find_by_id("other").is_none());
    assert_eq!(manager.push("main".to_string(), &"ab\x07".to_string()), "\x07");
    assert_eq!(manager.push("side".to_string(), &"xyz".to_string()), "");
    assert_eq!(manager.push("nobody".to_string(), &"lost".to_string()), "");
    let mut out: Vec<u8> = Vec::new();
    manager.write(&mut out).unwrap();
    assert_eq!(String::from_utf8(out).unwrap(), "\x1b[1;1Hab  \x1b[1;6Hxyz\x1b[1;3H");

    manager.register("side".to_string(), Pane::new("side", 6, 1, 2, 5));
    assert_eq!(manager.find_by_id("side").unwrap().width(), 5);
    let mut out: Vec<u8> = Vec::new();
    manager.write(&mut out).unwrap();
    assert_eq!(String::from_utf8(out).unwrap(), "\x1b[1;3H");
}
