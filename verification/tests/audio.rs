use zhelper::audio::{
    clean_name, default_command, get_default_device, list_command, pactl_result,
    parse_pactl_devices, read_pactl, AudioDevice, AudioManager,
};
use zhelper::process::ProcessResult;

const SINKS: &str = "Sink #55\n\
\tState: RUNNING\n\
\tName: alsa_output.pci-0000.analog-stereo\n\
\tDescription: Family 17h/19h HD Audio Controller Analog Stereo\n\
\tMute: no\n\
\tVolume: front-left: 32768 /  50% / -18,06 dB,   front-right: 32768 /  50%\n\
\tPorts:\n\
\t\tanalog-output-speaker: Speakers (type: Speaker, priority: 10000, available)\n\
\t\tanalog-output-headphones: Headphones (type: Headphones, priority: 9900, not available)\n\
\tActive Port: analog-output-speaker\n\
\tFormats:\n\
\t\tpcm: x\n\
\n\
Sink #56\n\
\tName: hdmi\n\
\tDescription: HDA NVidia Digital\n\
\tMute: yes\n\
\tVolume: none\n\
\n\
Sink #57\n\
\tDescription: nameless\n";

fn s(x: &str) -> Option<String> {
    Some(x.to_string())
}

fn done(success: bool, out: &str, err: &str) -> ProcessResult {
    ProcessResult::Done {
        success,
        stdout: out.as_bytes().to_vec(),
        stderr: err.as_bytes().to_vec(),
    }
}

fn sinks() -> Vec<AudioDevice> {
    parse_pactl_devices(SINKS, false, &s("hdmi"))
}

fn args(r: Result<Vec<String>, String>) -> Vec<String> {
    r.unwrap_or_else(|e| panic!("{}", e))
}

#[test]
fn outputs_are_parsed() {
    let d = sinks();
    assert_eq!(d.len(), 2);
    assert_eq!(d[0].pactl_name, "alsa_output.pci-0000.analog-stereo");
    assert_eq!(d[0].display_name, "Analog Stereo");
    assert_eq!(d[0].volume, 50);
    assert!(!d[0].muted && !d[0].is_default);
    assert_eq!(d[0].active_port, s("analog-output-speaker"));
    assert_eq!(d[0].ports.len(), 2);
    assert_eq!(d[0].ports[0].port_name, "analog-output-speaker");
    assert_eq!(d[0].ports[0].display_name, "Speakers");
    assert!(d[0].ports[0].available && d[0].ports[0].is_active);
    assert_eq!(d[0].ports[1].display_name, "Headphones");
    assert!(!d[0].ports[1].available && !d[0].ports[1].is_active);
    assert_eq!(d[1].pactl_name, "hdmi");
    assert_eq!(d[1].display_name, "NVIDIA Audio Digital");
    assert!(d[1].muted && d[1].is_default);
    assert_eq!(d[1].volume, 0);
    assert_eq!(d[1].ports.len(), 0);
    assert_eq!(d[1].active_port, None);
}

#[test]
fn inputs_leave_monitors_out() {
    let text = "Source #1\n Name: out.monitor\nSource #2\n Name: mic\n Volume: x / 75² %\n\
        Source #3\n Name: line\n Volume: x / 120 / \n";
    let d = parse_pactl_devices(text, true, &None);
    assert_eq!(d.len(), 2);
    assert_eq!(d[0].pactl_name, "mic");
    assert_eq!(d[0].volume, 0);
    assert_eq!(d[1].volume, 120);
    assert!(!d[0].is_default);
    assert_eq!(parse_pactl_devices("Sink #1\n Name: out.monitor\n", false, &None).len(), 1);
    assert_eq!(parse_pactl_devices("", false, &None).len(), 0);
}

#[test]
fn names_are_cleaned() {
    assert_eq!(
        clean_name("Rembrandt Radeon High Definition Audio Controller HDMI "),
        "AMD Audio HDMI"
    );
    assert_eq!(clean_name(" HDA NVidia "), "NVIDIA Audio");
}

#[test]
fn commands() {
    assert_eq!(list_command(true), vec!["list".to_string(), "sources".to_string()]);
    assert_eq!(list_command(false), vec!["list".to_string(), "sinks".to_string()]);
    assert_eq!(default_command(true), vec!["get-default-source".to_string()]);
    assert_eq!(default_command(false), vec!["get-default-sink".to_string()]);
    assert_eq!(get_default_device(done(true, "hdmi\n", "")), s("hdmi"));
    assert_eq!(get_default_device(done(false, "hdmi\n", "")), None);
}

#[test]
fn results_of_pactl() {
    assert_eq!(pactl_result(done(true, "", "x")), Ok(()));
    assert_eq!(pactl_result(done(false, "", " no such sink\n")), Err("no such sink".to_string()));
    assert_eq!(
        pactl_result(ProcessResult::Failed("gone".to_string())),
        Err("pactl failed: gone".to_string())
    );
}

#[test]
fn devices_are_read() {
    let d = read_pactl(done(true, SINKS, ""), done(true, "hdmi\n", ""), false);
    assert_eq!(d.len(), 2);
    assert!(d[1].is_default);
    assert_eq!(read_pactl(done(false, SINKS, ""), done(true, "hdmi", ""), false).len(), 0);
    let broken = ProcessResult::Done { success: true, stdout: vec![0xff], stderr: Vec::new() };
    assert_eq!(read_pactl(broken, done(true, "", ""), false).len(), 0);
}

#[test]
fn rows_show_devices_and_ports() {
    let mut m = AudioManager::new(sinks(), Vec::new());
    assert_eq!(m.total_rows(), 4);
    let places = [(0, None), (0, Some(0)), (0, Some(1)), (1, None)];
    for (row, place) in places.into_iter().enumerate() {
        m.cursor = row;
        assert_eq!(m.cursor_info(), place);
    }
    m.cursor = 4;
    assert_eq!(m.cursor_info(), (0, None));
    m.section = 1;
    assert_eq!(m.total_rows(), 0);
    assert_eq!(m.cursor_info(), (0, None));
    assert_eq!(m.current_devices().len(), 0);
}

#[test]
fn refreshing_keeps_the_row_while_it_exists() {
    let mut m = AudioManager::new(sinks(), Vec::new());
    m.cursor = 3;
    m.refresh(sinks(), Vec::new());
    assert_eq!(m.cursor, 3);
    m.refresh(Vec::new(), sinks());
    assert_eq!(m.cursor, 0);
}

#[test]
fn actions_on_an_output() {
    let mut m = AudioManager::new(sinks(), Vec::new());
    assert_eq!(
        args(m.toggle_mute()),
        vec!["set-sink-mute", "alsa_output.pci-0000.analog-stereo", "toggle"]
    );
    assert_eq!(
        args(m.set_volume(5)),
        vec!["set-sink-volume", "alsa_output.pci-0000.analog-stereo", "55%"]
    );
    assert_eq!(args(m.set_volume(-60))[2], "0%");
    assert_eq!(args(m.set_volume(1000))[2], "150%");
    assert_eq!(
        args(m.set_default()),
        vec!["set-default-sink", "alsa_output.pci-0000.analog-stereo"]
    );
    assert_eq!(m.activate_port().err(), s("Select a port, not the device header"));
    m.cursor = 2;
    assert_eq!(
        args(m.activate_port()),
        vec![
            "set-sink-port",
            "alsa_output.pci-0000.analog-stereo",
            "analog-output-headphones"
        ]
    );
}

#[test]
fn actions_on_an_input() {
    let mut m = AudioManager::new(Vec::new(), sinks());
    assert_eq!(m.toggle_mute().err(), s("No device"));
    assert_eq!(m.set_volume(5).err(), s("No device"));
    assert_eq!(m.set_default().err(), s("No device"));
    m.section = 1;
    m.cursor = 3;
    assert_eq!(args(m.toggle_mute()), vec!["set-source-mute", "hdmi", "toggle"]);
    assert_eq!(args(m.set_volume(-5)), vec!["set-source-volume", "hdmi", "0%"]);
    assert_eq!(args(m.set_default()), vec!["set-default-source", "hdmi"]);
    m.cursor = 1;
    assert_eq!(args(m.activate_port())[0], "set-source-port");
}
