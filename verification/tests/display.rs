use zhelper::display::{
    parse_current_state, parse_modes, parse_monitors, read_current_state, state_command,
    CurrentState, DisplayManager,
};
use zhelper::process::ProcessResult;

const STATE: &str = "(uint32 7, [(('eDP-1', 'BOE', '0x0a1d', '0x0'), [('2560x1600@165.002', 2560, 1600, 165.00178527832031, 1.0, [1.0, 2.0], {'is-current': <true>, 'is-preferred': <true>}), ('1920x1200@60.000', 1920, 1200, 60.0, 1.0, [1.0], {}), ('2560x1600@60.002', 2560, 1600, 60.00, 1.0, [1.0], {})], {'is-builtin': <true>, 'display-name': <'Built-in (display'>}), (('HDMI-1', 'DEL', 'U2720Q', 'X'), [('3840x2160@59.951', 3840, 2160, 59.951, 1.0, [1.0], {'is-current': <true>})], {})], [(0, 0, 1.25, uint32 0, true, [('eDP-1', 'BOE', '0x0a1d', '0x0')], {})], {'layout-mode': <uint32 1>})";

fn s(x: &str) -> Option<String> {
    Some(x.to_string())
}

fn cs(x: &str) -> Vec<char> {
    x.chars().collect()
}

fn done(success: bool, out: &str, err: &str) -> ProcessResult {
    ProcessResult::Done {
        success,
        stdout: out.as_bytes().to_vec(),
        stderr: err.as_bytes().to_vec(),
    }
}

fn state() -> CurrentState {
    match parse_current_state(STATE) {
        Some(mut st) => {
            for m in st.monitors.iter_mut() {
                for mode in m.modes.iter_mut() {
                    mode.rank = (mode.refresh_rate.parse::<f64>().unwrap_or(0.0) * 1000.0) as i64;
                }
            }
            st
        }
        None => panic!("no state"),
    }
}

#[test]
fn a_state_is_parsed() {
    let st = state();
    assert_eq!(st.serial, 7);
    assert_eq!(st.scale, s("1.25"));
    assert_eq!(st.monitors.len(), 2);
    let m = &st.monitors[0];
    assert_eq!(m.connector, "eDP-1");
    assert_eq!(m.display_name, "Built-in (display");
    assert_eq!(m.modes.len(), 3);
    assert_eq!(m.modes[0].mode_id, "2560x1600@165.002");
    assert_eq!((m.modes[0].width, m.modes[0].height), (2560, 1600));
    assert_eq!(m.modes[0].refresh_rate, "165.00178527832031");
    assert!(m.modes[0].is_current && m.modes[0].is_preferred);
    assert!(!m.modes[1].is_current && !m.modes[1].is_preferred);
    assert_eq!(st.monitors[1].connector, "HDMI-1");
    assert_eq!(st.monitors[1].display_name, "HDMI-1");
    assert!(st.monitors[1].modes[0].is_current);
}

#[test]
fn what_is_no_state() {
    assert!(parse_current_state("").is_none());
    assert!(parse_current_state("(uint32 7, [])").is_none());
    assert!(parse_current_state(&STATE.replace("(uint32 7,", "(uint32 x,")).is_none());
    let no_scale = STATE.replace("1.25", "big");
    match parse_current_state(&no_scale) {
        Some(st) => assert_eq!(st.scale, None),
        None => panic!("no state"),
    }
}

#[test]
fn modes_that_are_none_are_passed_over() {
    assert_eq!(parse_modes(&cs("")).len(), 0);
    assert_eq!(parse_modes(&cs("'no mode'")).len(), 0);
    assert_eq!(parse_modes(&cs("('10x10@1', 10, 10, 1.0")).len(), 0);
    assert_eq!(parse_modes(&cs("('10x10@1', 10, 10, 1.0, 1")).len(), 1);
    assert_eq!(parse_modes(&cs("('10x10@1', a, 10, 1.0, 1")).len(), 0);
    assert_eq!(parse_modes(&cs("('10x10@1', 10, 4294967296, 1.0, 1")).len(), 0);
    assert_eq!(parse_modes(&cs("('10x10@1', 10, 10, fast, 1")).len(), 0);
    assert_eq!(parse_modes(&cs("('10x1a@1', 10, 10, 1.0, 1")).len(), 0);
    assert_eq!(parse_modes(&cs("('1010@1', 10, 10, 1.0, 1")).len(), 0);
    assert_eq!(parse_modes(&cs("('123456789x1234567890@1', 1, 1, 1.0, 1")).len(), 0);
}

#[test]
fn displays_without_modes_are_passed_over() {
    assert_eq!(parse_monitors(&cs("(('A', 'b'), [])")).len(), 0);
    assert_eq!(parse_monitors(&cs("((''")).len(), 0);
    let long = format!("(('{}', 'b'), [('1x1@1', 1, 1, 1.0, 1, {{}})])", "x".repeat(30));
    assert_eq!(parse_monitors(&cs(&long)).len(), 0);
    let open = "(('A', 'b'), [('1x1@1', 1, 1, 1.0, 1, {}";
    assert_eq!(parse_monitors(&cs(open)).len(), 1);
}

#[test]
fn the_answer_is_read() {
    assert!(read_current_state(ProcessResult::Failed("x".to_string())).is_none());
    assert!(read_current_state(done(false, STATE, "")).is_none());
    assert!(read_current_state(done(true, STATE, "")).is_some());
    let mut bytes = STATE.as_bytes().to_vec();
    bytes.push(0xff);
    let odd = ProcessResult::Done { success: true, stdout: bytes, stderr: Vec::new() };
    assert!(read_current_state(odd).is_some());
    assert_eq!(
        state_command(),
        vec![
            "call",
            "--session",
            "--dest",
            "org.gnome.Mutter.DisplayConfig",
            "--object-path",
            "/org/gnome/Mutter/DisplayConfig",
            "--method",
            "org.gnome.Mutter.DisplayConfig.GetCurrentState"
        ]
    );
}

#[test]
fn modes_are_listed_by_pixels_and_rate() {
    let d = DisplayManager::new(Some(state()));
    let ids: Vec<String> = d.current_monitor_modes().iter().map(|m| m.mode_id.clone()).collect();
    assert_eq!(ids, vec!["2560x1600@165.002", "2560x1600@60.002", "1920x1200@60.000"]);
    assert_eq!(d.pending_mode_idx, 0);
    assert!(d.available);
    assert_eq!(DisplayManager::default().current_monitor_modes().len(), 0);
}

#[test]
fn the_display_stays_on_its_connector() {
    let mut d = DisplayManager::new(None);
    assert!(!d.available);
    assert!(d.current_monitor().is_none());
    d.refresh(Some(state()));
    assert_eq!(d.current_monitor_idx, 0);
    d.current_monitor_idx = 1;
    let mut swapped = state();
    swapped.monitors.reverse();
    d.refresh(Some(swapped));
    assert_eq!(d.current_monitor_idx, 0);
    assert_eq!(d.current_monitor().map(|m| m.connector.clone()), s("HDMI-1"));
    d.refresh(None);
    assert!(!d.available);
    assert_eq!(d.monitors.len(), 2);
    let mut alone = state();
    alone.monitors.truncate(1);
    d.refresh(Some(alone));
    assert_eq!(d.current_monitor().map(|m| m.connector.clone()), s("eDP-1"));
}

#[test]
fn putting_a_display_into_a_mode() {
    let mut d = DisplayManager::new(Some(state()));
    let args = d.apply_command("1920x1200@60.000", "1.25").unwrap_or_else(|e| panic!("{}", e));
    assert_eq!(args.len(), 12);
    assert_eq!(args[7], "org.gnome.Mutter.DisplayConfig.ApplyMonitorsConfig");
    assert_eq!(args[8], "7");
    assert_eq!(args[9], "1");
    assert_eq!(
        args[10],
        "[(0, 0, 1.25, uint32 0, true, [('eDP-1', '1920x1200@60.000', {})])]"
    );
    assert_eq!(args[11], "{}");
    assert_eq!(d.apply_command("3840x2160@59.951", "1").err(), s("Mode not available"));
    assert_eq!(
        DisplayManager::default().apply_command("x", "1").err(),
        s("No monitor selected")
    );
    assert_eq!(
        d.apply_refresh_rate(ProcessResult::Failed("gone".to_string()), None),
        Err("gdbus failed: gone".to_string())
    );
    assert!(d.available);
    assert_eq!(
        d.apply_refresh_rate(done(false, "", "denied"), None),
        Err("Failed to apply refresh rate:\ndenied".to_string())
    );
    assert_eq!(d.apply_refresh_rate(done(true, "", ""), None), Ok(()));
    assert!(!d.available);
}

#[test]
fn the_mode_in_use_is_chosen_at_first() {
    let mut st = state();
    st.monitors[0].modes[0].is_current = false;
    st.monitors[0].modes[1].is_current = true;
    let d = DisplayManager::new(Some(st));
    assert_eq!(d.pending_mode_idx, 2);
    assert_eq!(d.current_monitor_modes()[2].mode_id, "1920x1200@60.000");
    let mut st = state();
    st.monitors[0].modes[0].is_current = false;
    assert_eq!(DisplayManager::new(Some(st)).pending_mode_idx, 0);
}
