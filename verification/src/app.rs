//! The state of the panel: what each key does, and what is said of it.

use crate::audio::{self, AudioDevice, AudioManager};
use crate::battery::{self, BatteryFiles, BatteryManager};
use crate::config::Config;
use crate::cpu::{self, section_kind, Choice, CpuFiles, CpuManager, PptKind};
use crate::gpu::{self, GpuFiles, GpuManager};
use crate::number::{self, number_text};
use crate::process;
use crate::sysutil::prefixed;
use crate::system::{self, SystemFiles, SystemInfo};
use vstd::prelude::*;
use vstd::string::*;

verus! {

/// Which part of the panel the keys go to.
#[derive(Debug, Clone, Copy, PartialEq, Eq, Structural)]
pub enum Focus {
    Sidebar,
    Content,
}

/// What is said of the last thing done.
#[derive(Debug, Clone)]
pub enum Status {
    Empty,
    Success(String),
    Failure(String),
}

/// A key that was pressed.
#[derive(Debug, Clone, Copy, PartialEq, Eq, Structural)]
pub enum Key {
    Char(char),
    Left,
    Right,
    Up,
    Down,
    Enter,
    Tab,
    BackTab,
    Esc,
    Other,
}

/// A setting of the processor.
#[derive(Debug, Clone, Copy, PartialEq, Eq, Structural)]
pub enum CpuSetting {
    Thermal,
    Governor,
    Epp,
    Boost,
    Ppt(PptKind),
}

/// A change of an audio device.
#[derive(Debug, Clone, Copy, PartialEq, Eq, Structural)]
pub enum AudioChange {
    Volume,
    Mute,
    Port,
    DefaultDevice,
}

/// What is to be done after a key was pressed.
#[derive(Debug, Clone)]
pub enum Action {
    Nothing,
    /// Read everything again.
    Refresh,
    /// Store the configuration.
    SaveConfig,
    /// Set the charge limit.
    ApplyLimit(u8),
    /// Run the setup script for a limit.
    RunSetup(u8),
    /// Store the limit that is set again at each start.
    UpdatePersistent(u8),
    /// Store the chosen graphics mode for the next start.
    QueueGpu,
    /// Set what is chosen of the processor.
    ApplyCpu(CpuSetting),
    /// Run `pactl`.
    Pactl { args: Vec<String>, change: AudioChange },
}

/// The panel.
pub struct TuiApp {
    pub battery: BatteryManager,
    pub system: SystemInfo,
    pub config: Config,
    pub gpu: GpuManager,
    pub cpu: CpuManager,
    pub audio: AudioManager,
    /// 0 battery, 1 system, 2 cpu, 3 gpu, 4 audio, 5 settings.
    pub active_tab: usize,
    pub focus: Focus,
    pub desired_limit: u8,
    pub status: Status,
    /// The time in nanoseconds until which the status is shown.
    pub status_until: Option<u128>,
    /// The time in nanoseconds at which everything was read last.
    pub last_refresh: u64,
    pub should_quit: bool,
    pub settings_cursor: usize,
    /// The row of the processor's settings that is looked at.
    pub cpu_section: usize,
}

// ── Model ───────────────────────────────────────────────────────────────────

/// A number of seconds after a time, in nanoseconds.
pub open spec fn later(now: u64, secs: u64) -> u128 {
    (now + secs * 1_000_000_000) as u128
}

/// Everything is to be read again: the interval has passed since it was read
/// last.
pub open spec fn is_due(last: u64, secs: u64, now: u64) -> bool {
    (if now > last {
        now - last
    } else {
        0
    }) >= secs * 1_000_000_000
}

/// The panel at a time, its status taken away where its time is over.
pub open spec fn expired(a: TuiApp, now: u64) -> TuiApp {
    match a.status_until {
        Some(t) if now > t => TuiApp { status: Status::Empty, status_until: None, ..a },
        _ => a,
    }
}

/// The last row of the processor's settings.
pub open spec fn last_section(c: CpuManager) -> int {
    if c.asus_wmi_available {
        9
    } else {
        3
    }
}

/// The setting in a row of the processor's settings.
pub open spec fn setting_at(section: int) -> CpuSetting {
    if section == 0 {
        CpuSetting::Thermal
    } else if section == 1 {
        CpuSetting::Governor
    } else if section == 2 {
        CpuSetting::Epp
    } else if section == 3 {
        CpuSetting::Boost
    } else {
        CpuSetting::Ppt(cpu::kind_of_section(section))
    }
}

/// One more, up to `max`.
pub open spec fn up_to(n: usize, max: usize) -> usize {
    if n < max {
        (n + 1) as usize
    } else {
        max
    }
}

/// One less, where there is one.
pub open spec fn down(n: usize) -> usize {
    if n > 0 {
        (n - 1) as usize
    } else {
        n
    }
}

/// A charge limit lowered by `step`.
pub open spec fn limit_below(limit: u8, step: int) -> u8 {
    if limit - step > 20 {
        (limit - step) as u8
    } else {
        20
    }
}

/// A charge limit raised by `step`.
pub open spec fn limit_above(limit: u8, step: int) -> u8 {
    if limit + step < 100 {
        (limit + step) as u8
    } else {
        100
    }
}

impl TuiApp {
    /// The rows that are looked at exist, and the rows of the audio devices can
    /// be counted.
    pub open spec fn well_formed(&self) -> bool {
        &&& self.active_tab <= 5
        &&& self.settings_cursor <= 3
        &&& self.cpu_section <= last_section(self.cpu)
        &&& self.audio.countable()
        &&& self.audio.section <= 1
        &&& self.audio.cursor_on_row()
    }

    /// The limits that are wanted and configured are such as a battery can
    /// have.
    pub open spec fn limits_in_range(&self) -> bool {
        20 <= self.desired_limit <= 100 && 20 <= self.config.charge_limit <= 100
    }
}

/// The panel after a key was pressed in the sidebar.
pub open spec fn sidebar_pressed(a: TuiApp, key: Key) -> TuiApp {
    match key {
        Key::Down | Key::Char('j') => TuiApp { active_tab: up_to(a.active_tab, 5), ..a },
        Key::Up | Key::Char('k') => TuiApp { active_tab: down(a.active_tab), ..a },
        Key::Right | Key::Enter | Key::Char('l') => TuiApp { focus: Focus::Content, ..a },
        _ => a,
    }
}

/// The panel after a key was pressed in the battery tab, and what is to be done.
pub open spec fn battery_pressed(a: TuiApp, key: Key, shift: bool) -> (TuiApp, Action) {
    let step: int = if shift {
        5
    } else {
        1
    };
    match key {
        Key::Left => (
            TuiApp { desired_limit: limit_below(a.desired_limit, step), ..a },
            Action::Nothing,
        ),
        Key::Right => (
            TuiApp { desired_limit: limit_above(a.desired_limit, step), ..a },
            Action::Nothing,
        ),
        Key::Char('1') => (TuiApp { desired_limit: 60, ..a }, Action::Nothing),
        Key::Char('2') => (TuiApp { desired_limit: 80, ..a }, Action::Nothing),
        Key::Char('3') => (TuiApp { desired_limit: 100, ..a }, Action::Nothing),
        Key::Enter | Key::Char('a') => (a, Action::ApplyLimit(a.desired_limit)),
        Key::Char('s') => if a.battery.info.persistent_enabled {
            (a, Action::UpdatePersistent(a.desired_limit))
        } else {
            (a, Action::RunSetup(a.desired_limit))
        },
        _ => (a, Action::Nothing),
    }
}

/// The panel after a key was pressed in the graphics tab, and what is to be
/// done.
pub open spec fn gpu_pressed(a: TuiApp, key: Key) -> (TuiApp, Action) {
    match key {
        Key::Left => (TuiApp { gpu: a.gpu.spec_previous(), ..a }, Action::Nothing),
        Key::Right => (TuiApp { gpu: a.gpu.spec_next(), ..a }, Action::Nothing),
        Key::Enter | Key::Char('a') => (a, Action::QueueGpu),
        _ => (a, Action::Nothing),
    }
}

/// The panel after a key was pressed in the processor tab, and what is to be
/// done.
pub open spec fn cpu_pressed(a: TuiApp, key: Key) -> (TuiApp, Action) {
    match key {
        Key::Down | Key::Char('j') => (
            if a.cpu_section < last_section(a.cpu) {
                TuiApp { cpu_section: (a.cpu_section + 1) as usize, ..a }
            } else {
                a
            },
            Action::Nothing,
        ),
        Key::Up | Key::Char('k') => (
            TuiApp { cpu_section: down(a.cpu_section), ..a },
            Action::Nothing,
        ),
        Key::Left => (
            TuiApp { cpu: a.cpu.spec_lower(a.cpu_section as int), ..a },
            Action::Nothing,
        ),
        Key::Right => (
            TuiApp { cpu: a.cpu.spec_raise(a.cpu_section as int), ..a },
            Action::Nothing,
        ),
        Key::Enter | Key::Char('a') => (a, Action::ApplyCpu(setting_at(a.cpu_section as int))),
        Key::Char(' ') => if a.cpu_section == 3 {
            (
                TuiApp { cpu: CpuManager { pending_boost: !a.cpu.pending_boost, ..a.cpu }, ..a },
                Action::ApplyCpu(CpuSetting::Boost),
            )
        } else {
            (a, Action::Nothing)
        },
        _ => (a, Action::Nothing),
    }
}

/// The panel after a key was pressed in the settings tab, and what is to be
/// done.
pub open spec fn settings_pressed(a: TuiApp, key: Key) -> (TuiApp, Action) {
    match key {
        Key::Down | Key::Char('j') => (
            TuiApp { settings_cursor: up_to(a.settings_cursor, 3), ..a },
            Action::Nothing,
        ),
        Key::Up | Key::Char('k') => (
            TuiApp { settings_cursor: down(a.settings_cursor), ..a },
            Action::Nothing,
        ),
        Key::Left => if a.settings_cursor == 0 {
            (with_limit(a, limit_below(a.config.charge_limit, 1)), Action::SaveConfig)
        } else if a.settings_cursor == 2 && a.config.refresh_secs > 1 {
            (with_interval(a, (a.config.refresh_secs - 1) as u64), Action::SaveConfig)
        } else {
            (a, Action::Nothing)
        },
        Key::Right => if a.settings_cursor == 0 {
            (with_limit(a, limit_above(a.config.charge_limit, 1)), Action::SaveConfig)
        } else if a.settings_cursor == 2 && a.config.refresh_secs < 60 {
            (with_interval(a, (a.config.refresh_secs + 1) as u64), Action::SaveConfig)
        } else {
            (a, Action::Nothing)
        },
        Key::Enter | Key::Char(' ') => if a.settings_cursor == 1 {
            (
                TuiApp {
                    config: Config {
                        auto_apply_on_start: !a.config.auto_apply_on_start,
                        ..a.config
                    },
                    ..a
                },
                Action::SaveConfig,
            )
        } else if a.settings_cursor == 3 {
            (a, Action::RunSetup(a.desired_limit))
        } else {
            (a, Action::Nothing)
        },
        _ => (a, Action::Nothing),
    }
}

/// The panel with another configured limit, which is then wanted too.
pub open spec fn with_limit(a: TuiApp, limit: u8) -> TuiApp {
    TuiApp { config: Config { charge_limit: limit, ..a.config }, desired_limit: limit, ..a }
}

/// The panel with another interval between two readings.
pub open spec fn with_interval(a: TuiApp, secs: u64) -> TuiApp {
    TuiApp { config: Config { refresh_secs: secs, ..a.config }, ..a }
}

/// `new` is `old` but for an error that is said for some seconds.
pub open spec fn says_error(old: TuiApp, msg: Seq<char>, secs: u64, now: u64, new: TuiApp) -> bool {
    &&& new.status matches Status::Failure(m) && m@ == msg
    &&& new == (TuiApp {
        status: new.status,
        status_until: Some(later(now, secs)),
        ..old
    })
}

/// `new` is `old` but for a success that is said for some seconds.
pub open spec fn says_ok(old: TuiApp, msg: Seq<char>, secs: u64, now: u64, new: TuiApp) -> bool {
    &&& new.status matches Status::Success(m) && m@ == msg
    &&& new == (TuiApp {
        status: new.status,
        status_until: Some(later(now, secs)),
        ..old
    })
}

/// `pactl` is to be run with some arguments.
pub open spec fn asks_pactl(action: Action, args: Seq<Seq<char>>, change: AudioChange) -> bool {
    action matches Action::Pactl { args: a, change: c } && process::strings(a@) == args && c
        == change
}

/// `pactl` is to be run on the device that is looked at; an error is said where
/// there is none.
pub open spec fn on_device(
    a: TuiApp,
    args: Seq<Seq<char>>,
    change: AudioChange,
    now: u64,
    new: TuiApp,
    action: Action,
) -> bool {
    if a.audio.spec_device() is Some {
        new == a && asks_pactl(action, args, change)
    } else {
        says_error(a, "No device"@, 4, now, new) && action is Nothing
    }
}

/// `pactl` is to change the volume of the device that is looked at.
pub open spec fn changes_volume(
    a: TuiApp,
    delta: int,
    now: u64,
    new: TuiApp,
    action: Action,
) -> bool {
    on_device(
        a,
        seq![
            audio::command_for(a.audio.section, "set-sink-volume"@, "set-source-volume"@),
            a.audio.spec_device()->0.pactl_name@,
            number::dec(audio::volume_after(a.audio.spec_device()->0.volume, delta) as nat) + "%"@,
        ],
        AudioChange::Volume,
        now,
        new,
        action,
    )
}

/// `pactl` is to mute the device that is looked at, or to unmute it.
pub open spec fn toggles_mute(a: TuiApp, now: u64, new: TuiApp, action: Action) -> bool {
    on_device(
        a,
        seq![
            audio::command_for(a.audio.section, "set-sink-mute"@, "set-source-mute"@),
            a.audio.spec_device()->0.pactl_name@,
            "toggle"@,
        ],
        AudioChange::Mute,
        now,
        new,
        action,
    )
}

/// `pactl` is to put the port that is looked at into use.
pub open spec fn asks_port(a: TuiApp, action: Action) -> bool {
    asks_pactl(
        action,
        seq![
            audio::command_for(a.audio.section, "set-sink-port"@, "set-source-port"@),
            a.audio.spec_device()->0.pactl_name@,
            a.audio.spec_port()->0.port_name@,
        ],
        AudioChange::Port,
    )
}

/// `new` is the panel after a key was pressed in the audio tab, and `action` is
/// what is to be done.
pub open spec fn audio_pressed(
    a: TuiApp,
    key: Key,
    now: u64,
    new: TuiApp,
    action: Action,
) -> bool {
    match key {
        Key::Tab => {
            &&& action is Nothing
            &&& new == (TuiApp {
                audio: AudioManager {
                    section: if a.audio.section == 0 {
                        1
                    } else {
                        0
                    },
                    cursor: 0,
                    ..a.audio
                },
                ..a
            })
        },
        Key::Down | Key::Char('j') => {
            &&& action is Nothing
            &&& new == (TuiApp {
                audio: AudioManager {
                    cursor: if audio::rows(a.audio.devices()) > 0 {
                        up_to(a.audio.cursor, (audio::rows(a.audio.devices()) - 1) as usize)
                    } else {
                        a.audio.cursor
                    },
                    ..a.audio
                },
                ..a
            })
        },
        Key::Up | Key::Char('k') => {
            &&& action is Nothing
            &&& new == (TuiApp {
                audio: AudioManager { cursor: down(a.audio.cursor), ..a.audio },
                ..a
            })
        },
        Key::Left => changes_volume(a, -5, now, new, action),
        Key::Right => changes_volume(a, 5, now, new, action),
        Key::Char(' ') => toggles_mute(a, now, new, action),
        Key::Enter => if a.audio.spec_port() is Some {
            new == a && asks_port(a, action)
        } else {
            toggles_mute(a, now, new, action)
        },
        Key::Char('a') => {
            &&& new == a
            &&& if a.audio.spec_port() is Some {
                asks_port(a, action)
            } else {
                action is Nothing
            }
        },
        Key::Char('d') => on_device(
            a,
            seq![
                audio::command_for(a.audio.section, "set-default-sink"@, "set-default-source"@),
                a.audio.spec_device()->0.pactl_name@,
            ],
            AudioChange::DefaultDevice,
            now,
            new,
            action,
        ),
        _ => new == a && action is Nothing,
    }
}

/// `new` is the panel after a key was pressed in the content, and `action` is
/// what is to be done.
pub open spec fn content_pressed(
    a: TuiApp,
    key: Key,
    shift: bool,
    now: u64,
    new: TuiApp,
    action: Action,
) -> bool {
    if key == Key::Esc || key == Key::BackTab {
        new == (TuiApp { focus: Focus::Sidebar, ..a }) && action is Nothing
    } else if a.active_tab == 0 {
        (new, action) == battery_pressed(a, key, shift)
    } else if a.active_tab == 2 {
        (new, action) == cpu_pressed(a, key)
    } else if a.active_tab == 3 {
        (new, action) == gpu_pressed(a, key)
    } else if a.active_tab == 4 {
        audio_pressed(a, key, now, new, action)
    } else if a.active_tab == 5 {
        (new, action) == settings_pressed(a, key)
    } else {
        new == a && action is Nothing
    }
}

/// `new` is the panel after a key was pressed at a time, and `action` is what is
/// to be done.
pub open spec fn pressed(
    a: TuiApp,
    key: Key,
    shift: bool,
    now: u64,
    new: TuiApp,
    action: Action,
) -> bool {
    if key == Key::Char('q') || key == Key::Char('Q') {
        new == (TuiApp { should_quit: true, ..a }) && action is Nothing
    } else if key == Key::Char('r') || key == Key::Char('R') {
        new == a && action is Refresh
    } else if key == Key::Tab && !(a.active_tab == 4 && a.focus == Focus::Content) {
        &&& action is Nothing
        &&& new == (TuiApp {
            focus: if a.focus == Focus::Sidebar {
                Focus::Content
            } else {
                Focus::Sidebar
            },
            ..a
        })
    } else if a.focus == Focus::Sidebar {
        new == sidebar_pressed(a, key) && action is Nothing
    } else {
        content_pressed(a, key, shift, now, new, action)
    }
}

/// The processor after a setting was set as chosen.
pub open spec fn cpu_after(c: CpuManager, setting: CpuSetting) -> CpuManager {
    match setting {
        CpuSetting::Thermal => CpuManager { thermal_profile: c.pending_thermal, ..c },
        CpuSetting::Governor => CpuManager {
            governor: Choice { current: c.pending_governor, ..c.governor },
            ..c
        },
        CpuSetting::Epp => CpuManager { epp: Choice { current: c.pending_epp, ..c.epp }, ..c },
        CpuSetting::Boost => CpuManager { boost_enabled: c.pending_boost, ..c },
        CpuSetting::Ppt(k) => CpuManager {
            ppt: c.ppt.spec_with(k, c.pending_ppt.spec_get(k)),
            ..c
        },
    }
}

/// What is said once a setting of the processor is set as chosen.
pub open spec fn cpu_message(c: CpuManager, setting: CpuSetting) -> Seq<char> {
    match setting {
        CpuSetting::Thermal => c.pending_thermal.spec_label() + " thermal profile active"@,
        CpuSetting::Governor => "governor: "@ + c.pending_governor@,
        CpuSetting::Epp => "EPP: "@ + c.pending_epp@,
        CpuSetting::Boost => "CPU boost "@ + (if c.pending_boost {
            "enabled"@
        } else {
            "disabled"@
        }),
        CpuSetting::Ppt(k) => k.spec_label() + " updated"@,
    }
}

/// `new` is the panel after an audio device was changed.
pub open spec fn audio_changed(a: TuiApp, change: AudioChange, now: u64, new: TuiApp) -> bool {
    match change {
        AudioChange::Volume => new == a,
        AudioChange::Mute => says_ok(a, "toggled mute"@, 2, now, new),
        AudioChange::Port => says_ok(a, "port activated"@, 3, now, new),
        AudioChange::DefaultDevice => says_ok(
            a,
            "default "@ + audio::command_for(a.audio.section, "output"@, "input"@) + " set"@,
            3,
            now,
            new,
        ),
    }
}

// ── The panel at work ───────────────────────────────────────────────────────

/// A number of seconds after a time, in nanoseconds.
fn until(now: u64, secs: u64) -> (r: u128)
    ensures
        r == later(now, secs),
{
    now as u128 + secs as u128 * 1_000_000_000
}

/// A charge limit lowered by `step`.
fn lower_limit(limit: u8, step: u8) -> (r: u8)
    ensures
        r == limit_below(limit, step as int),
{
    if limit > step && limit - step > 20 {
        limit - step
    } else {
        20
    }
}

/// A charge limit raised by `step`.
fn raise_limit(limit: u8, step: u8) -> (r: u8)
    ensures
        r == limit_above(limit, step as int),
{
    if limit as u16 + (step as u16) < 100 {
        limit + step
    } else {
        100
    }
}

impl TuiApp {
    /// The panel at its start.
    pub fn new(
        config: Config,
        battery: BatteryManager,
        system: SystemInfo,
        gpu: GpuManager,
        cpu: CpuManager,
        audio: AudioManager,
        now: u64,
    ) -> (r: Self)
        ensures
            r == (TuiApp {
                battery,
                system,
                config,
                gpu,
                cpu,
                audio,
                active_tab: 0,
                focus: Focus::Sidebar,
                desired_limit: config.charge_limit,
                status: Status::Empty,
                status_until: None,
                last_refresh: now,
                should_quit: false,
                settings_cursor: 0,
                cpu_section: 0,
            }),
            audio.countable() && audio.section <= 1 && audio.cursor_on_row() ==> r.well_formed(),
            20 <= config.charge_limit <= 100 ==> r.limits_in_range(),
    {
        TuiApp {
            battery,
            system,
            config,
            gpu,
            cpu,
            audio,
            active_tab: 0,
            focus: Focus::Sidebar,
            desired_limit: config.charge_limit,
            status: Status::Empty,
            status_until: None,
            last_refresh: now,
            should_quit: false,
            settings_cursor: 0,
            cpu_section: 0,
        }
    }

    /// The charge limit to set at the start, with nothing said of it.
    pub fn limit_at_start(&self) -> (r: Option<u8>)
        ensures
            r == (if self.config.auto_apply_on_start {
                Some(self.desired_limit)
            } else {
                None
            }),
    {
        if self.config.auto_apply_on_start {
            Some(self.desired_limit)
        } else {
            None
        }
    }

    /// Takes over all that was read at a time.
    pub fn refresh(
        &mut self,
        battery: &BatteryFiles,
        system: &SystemFiles,
        gpu: &GpuFiles,
        cpu: &CpuFiles,
        sinks: Vec<AudioDevice>,
        sources: Vec<AudioDevice>,
        now: u64,
    )
        requires
            system::memory_sound(*system),
            audio::rows(sinks@) <= usize::MAX,
            audio::rows(sources@) <= usize::MAX,
        ensures
            final(self).battery.battery == old(self).battery.battery,
            if old(self).battery.battery is Some {
                battery::shows(final(self).battery.info, *battery)
            } else {
                final(self).battery.info == old(self).battery.info
            },
            system::shows(final(self).system, *system),
            system::memory_of(system.meminfo) is None ==> {
                &&& final(self).system.mem_total_mb == old(self).system.mem_total_mb
                &&& final(self).system.mem_used_mb == old(self).system.mem_used_mb
                &&& final(self).system.mem_available_mb == old(self).system.mem_available_mb
            },
            final(self).gpu == (GpuManager {
                mode: if old(self).gpu.asus_wmi_available {
                    gpu::mode_of(
                        old(self).gpu.has_mux,
                        gpu::u8_file(gpu.dgpu_disable),
                        gpu::u8_file(gpu.gpu_mux_mode),
                    )
                } else {
                    old(self).gpu.mode
                },
                queued_mode: gpu::queued_of(gpu.pending, old(self).gpu.has_mux),
                ..old(self).gpu
            }),
            cpu::refreshed(old(self).cpu, *cpu, final(self).system.cpu_temp, final(self).cpu),
            final(self).audio.sinks == sinks,
            final(self).audio.sources == sources,
            final(self).audio.section == old(self).audio.section,
            final(self).audio.cursor == (if old(self).audio.cursor < audio::rows(
                final(self).audio.devices(),
            ) {
                old(self).audio.cursor
            } else {
                0
            }),
            final(self).last_refresh == now,
            *final(self) == (TuiApp {
                battery: final(self).battery,
                system: final(self).system,
                gpu: final(self).gpu,
                cpu: final(self).cpu,
                audio: final(self).audio,
                last_refresh: now,
                ..*old(self)
            }),
            old(self).well_formed() ==> final(self).well_formed(),
            old(self).limits_in_range() ==> final(self).limits_in_range(),
    {
        self.battery.refresh(battery);
        self.system.refresh(system);
        self.gpu.refresh(gpu);
        self.cpu.refresh(cpu, self.system.cpu_temp);
        self.audio.refresh(sinks, sources);
        self.last_refresh = now;
    }

    /// Whether everything is to be read again.
    pub fn refresh_due(&self, now: u64) -> (r: bool)
        ensures
            r == ((if now > self.last_refresh {
                now - self.last_refresh
            } else {
                0
            }) >= self.config.refresh_secs * 1_000_000_000),
            r == is_due(self.last_refresh, self.config.refresh_secs, now),
    {
        let elapsed: u64 = if now > self.last_refresh {
            now - self.last_refresh
        } else {
            0
        };
        elapsed as u128 >= self.config.refresh_secs as u128 * 1_000_000_000
    }

    /// Takes the status away once its time is over.
    pub fn expire_status(&mut self, now: u64)
        ensures
            match old(self).status_until {
                Some(t) => if now > t {
                    *final(self) == (TuiApp {
                        status: Status::Empty,
                        status_until: None,
                        ..*old(self)
                    })
                } else {
                    *final(self) == *old(self)
                },
                None => *final(self) == *old(self),
            },
            *final(self) == expired(*old(self), now),
            old(self).well_formed() ==> final(self).well_formed(),
    {
        if let Some(t) = self.status_until {
            if now as u128 > t {
                self.status = Status::Empty;
                self.status_until = None;
            }
        }
    }

    /// Says that something was done, for some seconds.
    pub fn ok(&mut self, msg: String, secs: u64, now: u64)
        ensures
            *final(self) == (TuiApp {
                status: Status::Success(msg),
                status_until: Some(later(now, secs)),
                ..*old(self)
            }),
    {
        self.status = Status::Success(msg);
        self.status_until = Some(until(now, secs));
    }

    /// Says that something failed, for some seconds.
    pub fn err(&mut self, msg: String, secs: u64, now: u64)
        ensures
            *final(self) == (TuiApp {
                status: Status::Failure(msg),
                status_until: Some(later(now, secs)),
                ..*old(self)
            }),
    {
        self.status = Status::Failure(msg);
        self.status_until = Some(until(now, secs));
    }

    /// Takes over what came of setting the wanted charge limit. Where it is set
    /// it becomes the configured one: then the battery is to be read again, the
    /// configuration stored, and the limit that is to persist stored too.
    pub fn do_apply(&mut self, outcome: Result<(), String>, now: u64) -> (r: bool)
        ensures
            r == (outcome is Ok),
            match outcome {
                Ok(_) => says_ok(
                    TuiApp {
                        config: Config {
                            charge_limit: old(self).desired_limit,
                            ..old(self).config
                        },
                        ..*old(self)
                    },
                    "limit set to "@ + number::dec(old(self).desired_limit as nat) + "%"@,
                    4,
                    now,
                    *final(self),
                ),
                Err(e) => says_error(*old(self), e@, 8, now, *final(self)),
            },
            old(self).well_formed() ==> final(self).well_formed(),
            old(self).limits_in_range() ==> final(self).limits_in_range(),
            outcome is Ok && old(self).battery.info.persistent_enabled
                ==> final(self).spec_limit_to_persist() == Some(old(self).desired_limit),
    {
        match outcome {
            Ok(_) => {
                self.config.charge_limit = self.desired_limit;
                let mut msg = prefixed(
                    "limit set to ",
                    number_text(self.desired_limit as u64).as_str(),
                );
                msg.append("%");
                self.ok(msg, 4, now);
                true
            },
            Err(e) => {
                self.err(e, 8, now);
                false
            },
        }
    }

    /// The limit that is to be set again at each start, once it was set.
    pub open spec fn spec_limit_to_persist(&self) -> Option<u8> {
        if self.battery.info.persistent_enabled {
            Some(self.config.charge_limit)
        } else {
            None
        }
    }

    /// The limit that is to be stored once it was set, so that it is set again
    /// at each start; none where the service for it is not active.
    pub fn limit_to_persist(&self) -> (r: Option<u8>)
        ensures
            r == self.spec_limit_to_persist(),
    {
        if self.battery.info.persistent_enabled {
            Some(self.config.charge_limit)
        } else {
            None
        }
    }

    /// Says so where a limit that was set could not be stored.
    pub fn limit_persisted(&mut self, outcome: Result<(), String>, now: u64)
        ensures
            match outcome {
                Ok(_) => *final(self) == *old(self),
                Err(e) => says_error(*old(self), e@, 8, now, *final(self)),
            },
            old(self).well_formed() ==> final(self).well_formed(),
    {
        match outcome {
            Ok(_) => {},
            Err(e) => self.err(e, 8, now),
        }
    }

    /// Takes over what came of the setup. Where it is complete the battery is to
    /// be read again and the configuration stored.
    pub fn do_setup(&mut self, outcome: Result<(), String>, now: u64) -> (r: bool)
        ensures
            r == (outcome is Ok),
            match outcome {
                Ok(_) => says_ok(
                    TuiApp {
                        config: Config { persistent_limit: true, ..old(self).config },
                        ..*old(self)
                    },
                    "setup complete — persistent limit active"@,
                    6,
                    now,
                    *final(self),
                ),
                Err(e) => says_error(*old(self), e@, 10, now, *final(self)),
            },
            old(self).well_formed() ==> final(self).well_formed(),
    {
        match outcome {
            Ok(_) => {
                self.config.persistent_limit = true;
                self.ok("setup complete — persistent limit active".to_owned(), 6, now);
                true
            },
            Err(e) => {
                self.err(e, 10, now);
                false
            },
        }
    }

    /// Says what came of storing the limit that is set again at each start.
    pub fn do_persist(&mut self, outcome: Result<(), String>, now: u64)
        ensures
            match outcome {
                Ok(_) => says_ok(*old(self), "persistent limit updated"@, 4, now, *final(self)),
                Err(e) => says_error(*old(self), e@, 8, now, *final(self)),
            },
            old(self).well_formed() ==> final(self).well_formed(),
    {
        match outcome {
            Ok(_) => self.ok("persistent limit updated".to_owned(), 4, now),
            Err(e) => self.err(e, 8, now),
        }
    }

    /// Takes over what came of storing the chosen graphics mode.
    pub fn do_apply_gpu(&mut self, outcome: Result<(), String>, now: u64)
        ensures
            match outcome {
                Ok(_) => says_ok(
                    TuiApp {
                        gpu: GpuManager {
                            queued_mode: Some(old(self).gpu.pending_mode),
                            ..old(self).gpu
                        },
                        ..*old(self)
                    },
                    old(self).gpu.pending_mode.spec_label() + " mode queued"@,
                    4,
                    now,
                    *final(self),
                ),
                Err(e) => says_error(*old(self), e@, 8, now, *final(self)),
            },
            old(self).well_formed() ==> final(self).well_formed(),
    {
        match self.gpu.queue_gpu_mode(outcome) {
            Ok(_) => {
                let msg = prefixed(self.gpu.pending_mode.label(), " mode queued");
                self.ok(msg, 4, now)
            },
            Err(e) => self.err(e, 8, now),
        }
    }

    /// Takes over what came of setting what was chosen of the processor.
    pub fn cpu_apply(&mut self, setting: CpuSetting, outcome: Result<(), String>, now: u64)
        ensures
            match outcome {
                Ok(_) => says_ok(
                    TuiApp { cpu: cpu_after(old(self).cpu, setting), ..*old(self) },
                    cpu_message(old(self).cpu, setting),
                    4,
                    now,
                    *final(self),
                ),
                Err(e) => says_error(*old(self), e@, 8, now, *final(self)),
            },
            old(self).well_formed() ==> final(self).well_formed(),
    {
        let (result, msg) = match setting {
            CpuSetting::Thermal => {
                let msg = prefixed(self.cpu.pending_thermal.label(), " thermal profile active");
                (self.cpu.apply_thermal_profile(outcome), msg)
            },
            CpuSetting::Governor => {
                let msg = prefixed("governor: ", self.cpu.pending_governor.as_str());
                (self.cpu.apply_governor(outcome), msg)
            },
            CpuSetting::Epp => {
                let msg = prefixed("EPP: ", self.cpu.pending_epp.as_str());
                (self.cpu.apply_epp(outcome), msg)
            },
            CpuSetting::Boost => {
                let on: &str = if self.cpu.pending_boost {
                    "enabled"
                } else {
                    "disabled"
                };
                let msg = prefixed("CPU boost ", on);
                (self.cpu.apply_boost(outcome), msg)
            },
            CpuSetting::Ppt(k) => {
                let msg = prefixed(k.label(), " updated");
                (self.cpu.apply_ppt(k, outcome), msg)
            },
        };
        match result {
            Ok(_) => self.ok(msg, 4, now),
            Err(e) => self.err(e, 8, now),
        }
    }

    /// Says what came of changing an audio device. Where it is changed the
    /// devices are to be read again.
    pub fn audio_apply(
        &mut self,
        change: AudioChange,
        outcome: Result<(), String>,
        now: u64,
    ) -> (r: bool)
        ensures
            r == (outcome is Ok),
            match outcome {
                Ok(_) => audio_changed(*old(self), change, now, *final(self)),
                Err(e) => says_error(*old(self), e@, 4, now, *final(self)),
            },
            old(self).well_formed() ==> final(self).well_formed(),
    {
        match outcome {
            Ok(_) => {
                match change {
                    AudioChange::Volume => {},
                    AudioChange::Mute => self.ok("toggled mute".to_owned(), 2, now),
                    AudioChange::Port => self.ok("port activated".to_owned(), 3, now),
                    AudioChange::DefaultDevice => {
                        let kind: &str = if self.audio.section == 0 {
                            "output"
                        } else {
                            "input"
                        };
                        let mut msg = prefixed("default ", kind);
                        msg.append(" set");
                        self.ok(msg, 3, now);
                    },
                }
                true
            },
            Err(e) => {
                self.err(e, 4, now);
                false
            },
        }
    }

    /// What is to be done after a key was pressed at a time.
    pub fn handle_key(&mut self, key: Key, shift: bool, now: u64) -> (r: Action)
        requires
            old(self).well_formed(),
        ensures
            pressed(*old(self), key, shift, now, *final(self), r),
            final(self).well_formed(),
    {
        match key {
            Key::Char('q') | Key::Char('Q') => {
                self.should_quit = true;
                return Action::Nothing;
            },
            Key::Char('r') | Key::Char('R') => {
                return Action::Refresh;
            },
            Key::Tab => {
                if !(self.active_tab == 4 && self.focus == Focus::Content) {
                    self.focus = if self.focus == Focus::Sidebar {
                        Focus::Content
                    } else {
                        Focus::Sidebar
                    };
                    return Action::Nothing;
                }
            },
            _ => {},
        }
        match self.focus {
            Focus::Sidebar => {
                self.sidebar_key(key);
                Action::Nothing
            },
            Focus::Content => self.content_key(key, shift, now),
        }
    }

    /// Does what a key does in the sidebar.
    pub fn sidebar_key(&mut self, key: Key)
        ensures
            *final(self) == sidebar_pressed(*old(self), key),
    {
        match key {
            Key::Down | Key::Char('j') => {
                self.active_tab = if self.active_tab < 5 {
                    self.active_tab + 1
                } else {
                    5
                };
            },
            Key::Up | Key::Char('k') => {
                if self.active_tab > 0 {
                    self.active_tab = self.active_tab - 1;
                }
            },
            Key::Right | Key::Enter | Key::Char('l') => {
                self.focus = Focus::Content;
            },
            _ => {},
        }
    }

    /// Does what a key does in the content.
    pub fn content_key(&mut self, key: Key, shift: bool, now: u64) -> (r: Action)
        requires
            old(self).well_formed(),
        ensures
            content_pressed(*old(self), key, shift, now, *final(self), r),
            final(self).well_formed(),
    {
        match key {
            Key::Esc | Key::BackTab => {
                self.focus = Focus::Sidebar;
                return Action::Nothing;
            },
            _ => {},
        }
        match self.active_tab {
            0 => self.battery_key(key, shift),
            2 => self.cpu_key(key),
            3 => self.gpu_key(key),
            4 => self.audio_key(key, now),
            5 => self.settings_key(key),
            _ => Action::Nothing,
        }
    }

    /// Does what a key does in the battery tab.
    pub fn battery_key(&mut self, key: Key, shift: bool) -> (r: Action)
        ensures
            (*final(self), r) == battery_pressed(*old(self), key, shift),
            20 <= old(self).desired_limit <= 100 ==> 20 <= final(self).desired_limit <= 100,
    {
        let step: u8 = if shift {
            5
        } else {
            1
        };
        match key {
            Key::Left => {
                self.desired_limit = lower_limit(self.desired_limit, step);
            },
            Key::Right => {
                self.desired_limit = raise_limit(self.desired_limit, step);
            },
            Key::Char('1') => {
                self.desired_limit = 60;
            },
            Key::Char('2') => {
                self.desired_limit = 80;
            },
            Key::Char('3') => {
                self.desired_limit = 100;
            },
            Key::Enter | Key::Char('a') => {
                return Action::ApplyLimit(self.desired_limit);
            },
            Key::Char('s') => {
                return if self.battery.info.persistent_enabled {
                    Action::UpdatePersistent(self.desired_limit)
                } else {
                    Action::RunSetup(self.desired_limit)
                };
            },
            _ => {},
        }
        Action::Nothing
    }

    /// Does what a key does in the graphics tab.
    pub fn gpu_key(&mut self, key: Key) -> (r: Action)
        ensures
            (*final(self), r) == gpu_pressed(*old(self), key),
    {
        match key {
            Key::Left => self.gpu.choose_previous(),
            Key::Right => self.gpu.choose_next(),
            Key::Enter | Key::Char('a') => {
                return Action::QueueGpu;
            },
            _ => {},
        }
        Action::Nothing
    }

    /// Does what a key does in the processor tab.
    pub fn cpu_key(&mut self, key: Key) -> (r: Action)
        requires
            old(self).cpu_section <= last_section(old(self).cpu),
        ensures
            (*final(self), r) == cpu_pressed(*old(self), key),
            final(self).cpu_section <= last_section(final(self).cpu),
    {
        let max: usize = if self.cpu.asus_wmi_available {
            9
        } else {
            3
        };
        match key {
            Key::Down | Key::Char('j') => {
                if self.cpu_section < max {
                    self.cpu_section = self.cpu_section + 1;
                }
            },
            Key::Up | Key::Char('k') => {
                if self.cpu_section > 0 {
                    self.cpu_section = self.cpu_section - 1;
                }
            },
            Key::Left => self.cpu.lower(self.cpu_section),
            Key::Right => self.cpu.raise(self.cpu_section),
            Key::Enter | Key::Char('a') => {
                return Action::ApplyCpu(self.cpu_setting());
            },
            Key::Char(' ') => {
                if self.cpu_section == 3 {
                    self.cpu.pending_boost = !self.cpu.pending_boost;
                    return Action::ApplyCpu(self.cpu_setting());
                }
            },
            _ => {},
        }
        Action::Nothing
    }

    /// The setting of the processor that is looked at.
    fn cpu_setting(&self) -> (r: CpuSetting)
        requires
            self.cpu_section <= 9,
        ensures
            r == setting_at(self.cpu_section as int),
    {
        match self.cpu_section {
            0 => CpuSetting::Thermal,
            1 => CpuSetting::Governor,
            2 => CpuSetting::Epp,
            3 => CpuSetting::Boost,
            s => CpuSetting::Ppt(section_kind(s)),
        }
    }

    /// Does what a key does in the audio tab.
    pub fn audio_key(&mut self, key: Key, now: u64) -> (r: Action)
        requires
            old(self).well_formed(),
        ensures
            audio_pressed(*old(self), key, now, *final(self), r),
            final(self).well_formed(),
    {
        match key {
            Key::Tab => {
                self.audio.section = if self.audio.section == 0 {
                    1
                } else {
                    0
                };
                self.audio.cursor = 0;
                Action::Nothing
            },
            Key::Down | Key::Char('j') => {
                let total: usize = self.audio.total_rows();
                if total > 0 {
                    self.audio.cursor = if self.audio.cursor < total - 1 {
                        self.audio.cursor + 1
                    } else {
                        total - 1
                    };
                }
                Action::Nothing
            },
            Key::Up | Key::Char('k') => {
                if self.audio.cursor > 0 {
                    self.audio.cursor = self.audio.cursor - 1;
                }
                Action::Nothing
            },
            Key::Left => {
                let asked = self.audio.set_volume(-5);
                self.ask_pactl(asked, AudioChange::Volume, now)
            },
            Key::Right => {
                let asked = self.audio.set_volume(5);
                self.ask_pactl(asked, AudioChange::Volume, now)
            },
            Key::Char(' ') => {
                let asked = self.audio.toggle_mute();
                self.ask_pactl(asked, AudioChange::Mute, now)
            },
            Key::Enter => {
                let (_, port) = self.audio.cursor_info();
                if port.is_some() {
                    let asked = self.audio.activate_port();
                    self.ask_pactl(asked, AudioChange::Port, now)
                } else {
                    let asked = self.audio.toggle_mute();
                    self.ask_pactl(asked, AudioChange::Mute, now)
                }
            },
            Key::Char('a') => {
                let (_, port) = self.audio.cursor_info();
                if port.is_some() {
                    let asked = self.audio.activate_port();
                    self.ask_pactl(asked, AudioChange::Port, now)
                } else {
                    Action::Nothing
                }
            },
            Key::Char('d') => {
                let asked = self.audio.set_default();
                self.ask_pactl(asked, AudioChange::DefaultDevice, now)
            },
            _ => Action::Nothing,
        }
    }

    /// The run of `pactl` that is asked for; an error is said where there is
    /// none.
    fn ask_pactl(
        &mut self,
        asked: Result<Vec<String>, String>,
        change: AudioChange,
        now: u64,
    ) -> (r: Action)
        ensures
            match asked {
                Ok(args) => *final(self) == *old(self) && r == (Action::Pactl { args, change }),
                Err(e) => {
                    &&& r is Nothing
                    &&& *final(self) == (TuiApp {
                        status: Status::Failure(e),
                        status_until: Some(later(now, 4)),
                        ..*old(self)
                    })
                },
            },
    {
        match asked {
            Ok(args) => Action::Pactl { args, change },
            Err(e) => {
                self.err(e, 4, now);
                Action::Nothing
            },
        }
    }

    /// Does what a key does in the settings tab.
    pub fn settings_key(&mut self, key: Key) -> (r: Action)
        ensures
            (*final(self), r) == settings_pressed(*old(self), key),
            old(self).settings_cursor <= 3 ==> final(self).settings_cursor <= 3,
            20 <= old(self).config.charge_limit <= 100 ==> 20 <= final(self).config.charge_limit
                <= 100,
            1 <= old(self).config.refresh_secs <= 60 ==> 1 <= final(self).config.refresh_secs <= 60,
            final(self).config != old(self).config ==> r is SaveConfig,
    {
        match key {
            Key::Down | Key::Char('j') => {
                self.settings_cursor = if self.settings_cursor < 3 {
                    self.settings_cursor + 1
                } else {
                    3
                };
            },
            Key::Up | Key::Char('k') => {
                if self.settings_cursor > 0 {
                    self.settings_cursor = self.settings_cursor - 1;
                }
            },
            Key::Left => {
                if self.settings_cursor == 0 {
                    self.config.charge_limit = lower_limit(self.config.charge_limit, 1);
                    self.desired_limit = self.config.charge_limit;
                    return Action::SaveConfig;
                }
                if self.settings_cursor == 2 && self.config.refresh_secs > 1 {
                    self.config.refresh_secs = self.config.refresh_secs - 1;
                    return Action::SaveConfig;
                }
            },
            Key::Right => {
                if self.settings_cursor == 0 {
                    self.config.charge_limit = raise_limit(self.config.charge_limit, 1);
                    self.desired_limit = self.config.charge_limit;
                    return Action::SaveConfig;
                }
                if self.settings_cursor == 2 && self.config.refresh_secs < 60 {
                    self.config.refresh_secs = self.config.refresh_secs + 1;
                    return Action::SaveConfig;
                }
            },
            Key::Enter | Key::Char(' ') => {
                if self.settings_cursor == 1 {
                    self.config.auto_apply_on_start = !self.config.auto_apply_on_start;
                    return Action::SaveConfig;
                }
                if self.settings_cursor == 3 {
                    return Action::RunSetup(self.desired_limit);
                }
            },
            _ => {},
        }
        Action::Nothing
    }
}

// ── Laws ────────────────────────────────────────────────────────────────────

/// No key takes the panel to a tab, a row or a setting that does not exist.
pub proof fn law_keys_stay_in_bounds(
    a: TuiApp,
    key: Key,
    shift: bool,
    now: u64,
    new: TuiApp,
    action: Action,
)
    requires
        a.well_formed(),
        pressed(a, key, shift, now, new, action),
    ensures
        new.well_formed(),
{
}

/// No key takes the wanted or the configured charge limit out of 20 to 100
/// percent, and every limit that is to be set or stored is within it.
pub proof fn law_limit_in_range(
    a: TuiApp,
    key: Key,
    shift: bool,
    now: u64,
    new: TuiApp,
    action: Action,
)
    requires
        a.limits_in_range(),
        pressed(a, key, shift, now, new, action),
    ensures
        new.limits_in_range(),
        action matches Action::ApplyLimit(l) ==> 20 <= l <= 100,
        action matches Action::RunSetup(l) ==> 20 <= l <= 100,
        action matches Action::UpdatePersistent(l) ==> 20 <= l <= 100,
{
}

/// In the battery tab the wanted charge limit stays within 20 to 100 percent:
/// left and right take it one step on, of five with shift and else of one, the
/// keys 1 to 3 take it to 60, 80 and 100, and no other key changes it.
pub proof fn law_battery_keys(a: TuiApp, key: Key, shift: bool)
    requires
        20 <= a.desired_limit <= 100,
    ensures
        ({
            let step: int = if shift {
                5
            } else {
                1
            };
            let before = a.desired_limit as int;
            let after = battery_pressed(a, key, shift).0.desired_limit as int;
            &&& 20 <= after <= 100
            &&& key == Key::Left ==> after == (if before - step > 20 {
                before - step
            } else {
                20
            })
            &&& key == Key::Right ==> after == (if before + step < 100 {
                before + step
            } else {
                100
            })
            &&& key == Key::Char('1') ==> after == 60
            &&& key == Key::Char('2') ==> after == 80
            &&& key == Key::Char('3') ==> after == 100
            &&& after != before ==> key == Key::Left || key == Key::Right || key == Key::Char('1')
                || key == Key::Char('2') || key == Key::Char('3')
        }),
{
}

/// In the processor tab the row that is looked at stays one of the rows and goes
/// one up or down; space toggles the boost in its row, which is then set at once,
/// and changes nothing in another.
pub proof fn law_cpu_keys(a: TuiApp, key: Key)
    requires
        a.cpu_section <= last_section(a.cpu),
    ensures
        ({
            let (new, action) = cpu_pressed(a, key);
            let at = a.cpu_section as int;
            &&& new.cpu_section <= last_section(new.cpu)
            &&& key == Key::Down || key == Key::Char('j') ==> new.cpu_section == (if at
                < last_section(a.cpu) {
                at + 1
            } else {
                last_section(a.cpu)
            })
            &&& key == Key::Up || key == Key::Char('k') ==> new.cpu_section == (if at > 0 {
                at - 1
            } else {
                0
            })
            &&& key == Key::Char(' ') && at == 3 ==> new.cpu.pending_boost != a.cpu.pending_boost
                && action == Action::ApplyCpu(CpuSetting::Boost)
            &&& key == Key::Char(' ') && at != 3 ==> new == a && action is Nothing
        }),
{
}

/// In the settings tab the row, the limit and the interval stay within their
/// bounds, each goes by one, the configured limit is then the wanted one, and
/// every change is stored.
pub proof fn law_settings_keys(a: TuiApp, key: Key)
    requires
        a.settings_cursor <= 3,
        20 <= a.config.charge_limit <= 100,
        1 <= a.config.refresh_secs <= 60,
    ensures
        ({
            let (new, action) = settings_pressed(a, key);
            let at = a.settings_cursor;
            let sideways = key == Key::Left || key == Key::Right;
            let toggle = key == Key::Enter || key == Key::Char(' ');
            &&& new.settings_cursor <= 3
            &&& 20 <= new.config.charge_limit <= 100
            &&& 1 <= new.config.refresh_secs <= 60
            &&& new.config != a.config ==> action is SaveConfig
            &&& sideways && at == 0 ==> {
                &&& -1 <= new.config.charge_limit - a.config.charge_limit <= 1
                &&& new.desired_limit == new.config.charge_limit
            }
            &&& key == Key::Left && at == 0 && a.config.charge_limit > 20
                ==> new.config.charge_limit == a.config.charge_limit - 1
            &&& key == Key::Right && at == 0 && a.config.charge_limit < 100
                ==> new.config.charge_limit == a.config.charge_limit + 1
            &&& key == Key::Left && at == 2 && a.config.refresh_secs > 1
                ==> new.config.refresh_secs == a.config.refresh_secs - 1
            &&& key == Key::Right && at == 2 && a.config.refresh_secs < 60
                ==> new.config.refresh_secs == a.config.refresh_secs + 1
            &&& toggle && at == 1 ==> new.config == (Config {
                auto_apply_on_start: !a.config.auto_apply_on_start,
                ..a.config
            })
        }),
{
}

/// `a` and `Enter` do the same to a port that is looked at: they put it into
/// use.
pub proof fn law_port_applied(a: TuiApp, now: u64, new: TuiApp, action: Action)
    requires
        a.audio.spec_port() is Some,
    ensures
        audio_pressed(a, Key::Char('a'), now, new, action) == audio_pressed(
            a,
            Key::Enter,
            now,
            new,
            action,
        ),
        audio_pressed(a, Key::Enter, now, new, action) ==> asks_port(a, action),
{
}

/// No key takes the interval between two readings out of 1 to 60 seconds.
pub proof fn law_interval_in_range(
    a: TuiApp,
    key: Key,
    shift: bool,
    now: u64,
    new: TuiApp,
    action: Action,
)
    requires
        1 <= a.config.refresh_secs <= 60,
        pressed(a, key, shift, now, new, action),
    ensures
        1 <= new.config.refresh_secs <= 60,
{
}

/// The configuration is stored after every key that changes it, and only keys of
/// the settings tab lead to that.
pub proof fn law_changes_are_stored(
    a: TuiApp,
    key: Key,
    shift: bool,
    now: u64,
    new: TuiApp,
    action: Action,
)
    requires
        pressed(a, key, shift, now, new, action),
    ensures
        new.config != a.config ==> action is SaveConfig,
        action is SaveConfig ==> a.active_tab == 5 && a.focus == Focus::Content,
{
}

/// The panel is left with `q`, and with no other key.
pub proof fn law_only_q_quits(
    a: TuiApp,
    key: Key,
    shift: bool,
    now: u64,
    new: TuiApp,
    action: Action,
)
    requires
        !a.should_quit,
        pressed(a, key, shift, now, new, action),
    ensures
        new.should_quit <==> key == Key::Char('q') || key == Key::Char('Q'),
{
}

/// No key changes what is in use: the battery, the sensors, the graphics mode,
/// the profile, the governor, the boost and the limits that were read. What a
/// key chooses comes into use only once it was set.
pub proof fn law_keys_only_choose(
    a: TuiApp,
    key: Key,
    shift: bool,
    now: u64,
    new: TuiApp,
    action: Action,
)
    requires
        pressed(a, key, shift, now, new, action),
    ensures
        new.battery == a.battery,
        new.system == a.system,
        new.gpu.mode == a.gpu.mode,
        new.gpu.queued_mode == a.gpu.queued_mode,
        new.cpu.thermal_profile == a.cpu.thermal_profile,
        new.cpu.governor == a.cpu.governor,
        new.cpu.epp == a.cpu.epp,
        new.cpu.boost_enabled == a.cpu.boost_enabled,
        new.cpu.ppt == a.cpu.ppt,
        new.audio.sinks == a.audio.sinks,
        new.audio.sources == a.audio.sources,
{
}

/// The system tab is read-only: no key there changes anything but where the
/// keys go and whether the panel is left.
pub proof fn law_system_tab_reads_only(
    a: TuiApp,
    key: Key,
    shift: bool,
    now: u64,
    new: TuiApp,
    action: Action,
)
    requires
        a.active_tab == 1,
        a.focus == Focus::Content,
        pressed(a, key, shift, now, new, action),
    ensures
        new == (TuiApp { focus: new.focus, should_quit: new.should_quit, ..a }),
        action is Nothing || action is Refresh,
{
}

/// `Tab` pressed twice leads back to where it started: outside the audio tab to
/// the same state, and in the content of the audio tab to the same section, at
/// its first row.
pub proof fn law_tab_twice(
    a: TuiApp,
    shift: bool,
    now: u64,
    mid: TuiApp,
    first: Action,
    new: TuiApp,
    second: Action,
)
    requires
        a.well_formed(),
        a.active_tab != 4 || a.focus == Focus::Content,
        pressed(a, Key::Tab, shift, now, mid, first),
        pressed(mid, Key::Tab, shift, now, new, second),
    ensures
        a.active_tab != 4 ==> new == a,
        a.active_tab == 4 ==> new == (TuiApp { audio: AudioManager { cursor: 0, ..a.audio }, ..a }),
{
}

/// A step down undoes a step up of the wanted charge limit, where the step up
/// did not reach its end.
pub proof fn law_limit_step_undone(
    a: TuiApp,
    shift: bool,
    now: u64,
    mid: TuiApp,
    first: Action,
    new: TuiApp,
    second: Action,
)
    requires
        a.active_tab == 0,
        a.focus == Focus::Content,
        20 <= a.desired_limit,
        a.desired_limit + (if shift {
            5int
        } else {
            1int
        }) <= 100,
        pressed(a, Key::Right, shift, now, mid, first),
        pressed(mid, Key::Left, shift, now, new, second),
    ensures
        new == a,
{
}

/// A status is shown until its time and not after it.
pub proof fn law_status_shown(a: TuiApp, msg: Seq<char>, secs: u64, said: u64, b: TuiApp, now: u64)
    requires
        says_ok(a, msg, secs, said, b) || says_error(a, msg, secs, said, b),
    ensures
        b.status_until matches Some(t) && (now > t <==> now - said > secs * 1_000_000_000),
{
}

/// `Enter` applies what left and right change in the same row of the processor
/// tab: where a step in a row changes the chosen profile, governor, energy
/// preference, boost or limit, `Enter` in that row asks for that setting, and so
/// does `a`. Neither changes what is chosen.
pub proof fn law_enter_applies_row(a: TuiApp, key: Key)
    requires
        key == Key::Left || key == Key::Right,
    ensures
        ({
            let stepped = cpu_pressed(a, key).0.cpu;
            let (same, action) = cpu_pressed(a, Key::Enter);
            &&& same == a
            &&& cpu_pressed(a, Key::Char('a')) == (same, action)
            &&& action is ApplyCpu
            &&& stepped.pending_thermal != a.cpu.pending_thermal ==> action == Action::ApplyCpu(
                CpuSetting::Thermal,
            )
            &&& stepped.pending_governor != a.cpu.pending_governor ==> action == Action::ApplyCpu(
                CpuSetting::Governor,
            )
            &&& stepped.pending_epp != a.cpu.pending_epp ==> action == Action::ApplyCpu(
                CpuSetting::Epp,
            )
            &&& stepped.pending_boost != a.cpu.pending_boost ==> action == Action::ApplyCpu(
                CpuSetting::Boost,
            )
            &&& stepped.pending_ppt.apu_sppt != a.cpu.pending_ppt.apu_sppt ==> action
                == Action::ApplyCpu(CpuSetting::Ppt(PptKind::ApuSppt))
            &&& stepped.pending_ppt.fppt != a.cpu.pending_ppt.fppt ==> action == Action::ApplyCpu(
                CpuSetting::Ppt(PptKind::Fppt),
            )
            &&& stepped.pending_ppt.pl1_spl != a.cpu.pending_ppt.pl1_spl ==> action
                == Action::ApplyCpu(CpuSetting::Ppt(PptKind::Pl1Spl))
            &&& stepped.pending_ppt.pl2_sppt != a.cpu.pending_ppt.pl2_sppt ==> action
                == Action::ApplyCpu(CpuSetting::Ppt(PptKind::Pl2Sppt))
            &&& stepped.pending_ppt.nv_boost != a.cpu.pending_ppt.nv_boost ==> action
                == Action::ApplyCpu(CpuSetting::Ppt(PptKind::NvBoost))
            &&& stepped.pending_ppt.nv_temp_target != a.cpu.pending_ppt.nv_temp_target ==> action
                == Action::ApplyCpu(CpuSetting::Ppt(PptKind::NvTempTarget))
        }),
{
}

/// The rows of the processor tab are the profile, the governor, the energy
/// preference, the boost and, where the firmware has limits, the six of them in
/// order: left and right change only what is chosen in the row that is looked
/// at.
pub proof fn law_cpu_rows(a: TuiApp, key: Key)
    requires
        key == Key::Left || key == Key::Right,
    ensures
        ({
            let (new, action) = cpu_pressed(a, key);
            let at = a.cpu_section;
            let now = a.cpu.pending_ppt;
            &&& action is Nothing
            &&& new == (TuiApp {
                cpu: CpuManager {
                    pending_thermal: if at == 0 {
                        new.cpu.pending_thermal
                    } else {
                        a.cpu.pending_thermal
                    },
                    pending_governor: if at == 1 {
                        new.cpu.pending_governor
                    } else {
                        a.cpu.pending_governor
                    },
                    pending_epp: if at == 2 {
                        new.cpu.pending_epp
                    } else {
                        a.cpu.pending_epp
                    },
                    pending_boost: if at == 3 {
                        key == Key::Right
                    } else {
                        a.cpu.pending_boost
                    },
                    pending_ppt: if at == 4 {
                        cpu::PptLimits { apu_sppt: new.cpu.pending_ppt.apu_sppt, ..now }
                    } else if at == 5 {
                        cpu::PptLimits { fppt: new.cpu.pending_ppt.fppt, ..now }
                    } else if at == 6 {
                        cpu::PptLimits { pl1_spl: new.cpu.pending_ppt.pl1_spl, ..now }
                    } else if at == 7 {
                        cpu::PptLimits { pl2_sppt: new.cpu.pending_ppt.pl2_sppt, ..now }
                    } else if at == 8 {
                        cpu::PptLimits { nv_boost: new.cpu.pending_ppt.nv_boost, ..now }
                    } else if at == 9 {
                        cpu::PptLimits { nv_temp_target: new.cpu.pending_ppt.nv_temp_target, ..now }
                    } else {
                        now
                    },
                    ..a.cpu
                },
                ..a
            })
            &&& (at == 0 || at == 1 || at == 2 || at == 3) ==> cpu_pressed(a, Key::Enter).1
                == Action::ApplyCpu(
                if at == 0 {
                    CpuSetting::Thermal
                } else if at == 1 {
                    CpuSetting::Governor
                } else if at == 2 {
                    CpuSetting::Epp
                } else {
                    CpuSetting::Boost
                },
            )
        }),
{
}

/// Once a setting is set, what is in use of it is what was chosen; everything
/// else, and what is chosen, stays.
pub proof fn law_applied_in_use(c: CpuManager, setting: CpuSetting)
    ensures
        ({
            let new = cpu_after(c, setting);
            let kept = CpuManager {
                thermal_profile: c.thermal_profile,
                governor: c.governor,
                epp: c.epp,
                boost_enabled: c.boost_enabled,
                ppt: c.ppt,
                ..new
            };
            &&& kept == c
            &&& new.thermal_profile == (if setting is Thermal {
                c.pending_thermal
            } else {
                c.thermal_profile
            })
            &&& new.governor.available == c.governor.available
            &&& new.governor.current == (if setting is Governor {
                c.pending_governor
            } else {
                c.governor.current
            })
            &&& new.epp.available == c.epp.available
            &&& new.epp.current == (if setting is Epp {
                c.pending_epp
            } else {
                c.epp.current
            })
            &&& new.boost_enabled == (if setting is Boost {
                c.pending_boost
            } else {
                c.boost_enabled
            })
            &&& new.ppt.apu_sppt == (if setting == CpuSetting::Ppt(PptKind::ApuSppt) {
                c.pending_ppt.apu_sppt
            } else {
                c.ppt.apu_sppt
            })
            &&& new.ppt.fppt == (if setting == CpuSetting::Ppt(PptKind::Fppt) {
                c.pending_ppt.fppt
            } else {
                c.ppt.fppt
            })
            &&& new.ppt.pl1_spl == (if setting == CpuSetting::Ppt(PptKind::Pl1Spl) {
                c.pending_ppt.pl1_spl
            } else {
                c.ppt.pl1_spl
            })
            &&& new.ppt.pl2_sppt == (if setting == CpuSetting::Ppt(PptKind::Pl2Sppt) {
                c.pending_ppt.pl2_sppt
            } else {
                c.ppt.pl2_sppt
            })
            &&& new.ppt.nv_boost == (if setting == CpuSetting::Ppt(PptKind::NvBoost) {
                c.pending_ppt.nv_boost
            } else {
                c.ppt.nv_boost
            })
            &&& new.ppt.nv_temp_target == (if setting == CpuSetting::Ppt(PptKind::NvTempTarget) {
                c.pending_ppt.nv_temp_target
            } else {
                c.ppt.nv_temp_target
            })
        }),
{
}

/// A key in the content changes only what its tab is about: the wanted limit in
/// the battery tab, the processor and its row, the graphics, the audio and what
/// is said of it, and the settings with the wanted limit; besides, where the
/// keys go and whether the panel is left. The actions that it asks for are those
/// of its tab.
pub proof fn law_tabs_apart(
    a: TuiApp,
    key: Key,
    shift: bool,
    now: u64,
    new: TuiApp,
    action: Action,
)
    requires
        a.focus == Focus::Content,
        pressed(a, key, shift, now, new, action),
    ensures
        new.active_tab == a.active_tab,
        new.last_refresh == a.last_refresh,
        new.desired_limit != a.desired_limit ==> a.active_tab == 0 || a.active_tab == 5,
        new.cpu != a.cpu || new.cpu_section != a.cpu_section ==> a.active_tab == 2,
        new.gpu != a.gpu ==> a.active_tab == 3,
        new.audio != a.audio ==> a.active_tab == 4,
        new.status != a.status || new.status_until != a.status_until ==> a.active_tab == 4,
        new.config != a.config || new.settings_cursor != a.settings_cursor ==> a.active_tab == 5,
        new.focus != a.focus ==> key == Key::Esc || key == Key::BackTab || key == Key::Tab,
        action is ApplyLimit || action is UpdatePersistent ==> a.active_tab == 0,
        action is RunSetup ==> a.active_tab == 0 || a.active_tab == 5,
        action is ApplyCpu ==> a.active_tab == 2,
        action is QueueGpu ==> a.active_tab == 3,
        action is Pactl ==> a.active_tab == 4,
        action is Refresh <==> key == Key::Char('r') || key == Key::Char('R'),
{
}

/// In the sidebar the keys choose the tab or lead into it, and ask for nothing
/// but a new reading.
pub proof fn law_sidebar_keys(
    a: TuiApp,
    key: Key,
    shift: bool,
    now: u64,
    new: TuiApp,
    action: Action,
)
    requires
        a.focus == Focus::Sidebar,
        a.active_tab <= 5,
        pressed(a, key, shift, now, new, action),
    ensures
        new == (TuiApp {
            active_tab: new.active_tab,
            focus: new.focus,
            should_quit: new.should_quit,
            ..a
        }),
        key == Key::Down || key == Key::Char('j') ==> new.active_tab == (if a.active_tab < 5 {
            a.active_tab + 1
        } else {
            5
        }),
        key == Key::Up || key == Key::Char('k') ==> new.active_tab == (if a.active_tab > 0 {
            a.active_tab - 1
        } else {
            0
        }),
        new.active_tab != a.active_tab ==> key == Key::Down || key == Key::Char('j') || key
            == Key::Up || key == Key::Char('k'),
        new.focus == Focus::Content <==> key == Key::Tab || key == Key::Right || key == Key::Enter
            || key == Key::Char('l'),
        action is Nothing || action is Refresh,
{
}

/// In the battery tab `Enter` and `a` ask for the wanted limit to be set, and
/// `s` for it to be stored: by the setup where none is stored yet. In the
/// graphics tab `Enter` and `a` ask for the chosen mode to be stored. In the
/// settings the setup is run for the wanted limit.
pub proof fn law_wanted_is_applied(
    a: TuiApp,
    key: Key,
    shift: bool,
    now: u64,
    new: TuiApp,
    action: Action,
)
    requires
        a.focus == Focus::Content,
        pressed(a, key, shift, now, new, action),
    ensures
        action matches Action::ApplyLimit(l) ==> l == a.desired_limit && new == a,
        action matches Action::RunSetup(l) ==> l == a.desired_limit && new == a,
        action matches Action::UpdatePersistent(l) ==> l == a.desired_limit && new == a,
        action is QueueGpu ==> new == a,
        action is ApplyLimit <==> a.active_tab == 0 && (key == Key::Enter || key == Key::Char('a')),
        action is UpdatePersistent <==> a.active_tab == 0 && key == Key::Char('s')
            && a.battery.info.persistent_enabled,
        action is RunSetup <==> (a.active_tab == 0 && key == Key::Char('s')
            && !a.battery.info.persistent_enabled) || (a.active_tab == 5 && a.settings_cursor == 3
            && (key == Key::Enter || key == Key::Char(' '))),
        action is QueueGpu <==> a.active_tab == 3 && (key == Key::Enter || key == Key::Char('a')),
{
}

/// What `pactl` is asked for is asked of the device that is looked at, which is
/// a sink among the outputs and a source among the inputs: left and right take
/// its volume five percent down or up, within 0 to 150, `d` makes it the default,
/// and space turns its mute over. A port that is asked for is the one that is
/// looked at.
pub proof fn law_audio_keys(a: TuiApp, key: Key, now: u64, new: TuiApp, action: Action)
    requires
        a.audio.spec_device() is Some,
        audio_pressed(a, key, now, new, action),
    ensures
        ({
            let d = a.audio.spec_device()->0;
            let out = a.audio.section == 0;
            let v = d.volume as int;
            action matches Action::Pactl { args, change } ==> {
                &&& new == a
                &&& args@[1]@ == d.pactl_name@
                &&& key == Key::Left || key == Key::Right ==> {
                    &&& args@.len() == 3
                    &&& args@[0]@ == (if out {
                        "set-sink-volume"@
                    } else {
                        "set-source-volume"@
                    })
                    &&& key == Key::Left ==> args@[2]@ == number::dec(
                        (if v < 5 {
                            0
                        } else if v > 155 {
                            150
                        } else {
                            v - 5
                        }) as nat,
                    ) + "%"@
                    &&& key == Key::Right ==> args@[2]@ == number::dec(
                        (if v > 145 {
                            150
                        } else {
                            v + 5
                        }) as nat,
                    ) + "%"@
                }
                &&& key == Key::Char(' ') ==> args@.len() == 3 && args@[2]@ == "toggle"@
                    && args@[0]@ == (if out {
                    "set-sink-mute"@
                } else {
                    "set-source-mute"@
                })
                &&& key == Key::Char('d') ==> args@.len() == 2 && args@[0]@ == (if out {
                    "set-default-sink"@
                } else {
                    "set-default-source"@
                })
                &&& change == AudioChange::Port ==> {
                    &&& args@.len() == 3
                    &&& args@[0]@ == (if out {
                        "set-sink-port"@
                    } else {
                        "set-source-port"@
                    })
                    &&& a.audio.spec_port() matches Some(p) && args@[2]@ == p.port_name@
                }
            }
        }),
        key == Key::Left || key == Key::Right || key == Key::Char(' ') || key == Key::Char('d')
            ==> action is Pactl,
        action is Pactl && a.audio.spec_port() is Some && (key == Key::Enter || key == Key::Char(
            'a',
        )) ==> action->change == AudioChange::Port,
{
    match action {
        Action::Pactl { args, change } => {
            assert(args@.len() == process::strings(args@).len());
            assert(forall|i: int|
                0 <= i < args@.len() ==> (#[trigger] args@[i])@ == process::strings(args@)[i]);
        },
        _ => {},
    }
}


/// In the graphics tab left leads towards the integrated adapter and right
/// towards the dedicated one, as far as the switch allows; neither changes what
/// is in use.
pub proof fn law_gpu_keys(a: TuiApp, key: Key)
    requires
        a.gpu.pending_mode !is Unknown,
        a.gpu.pending_mode is Ultimate ==> a.gpu.has_mux,
    ensures
        ({
            let new = gpu_pressed(a, key).0;
            let was = a.gpu.pending_mode;
            &&& new == (TuiApp {
                gpu: GpuManager { pending_mode: new.gpu.pending_mode, ..a.gpu },
                ..a
            })
            &&& key == Key::Left ==> new.gpu.pending_mode == (if was is Ultimate {
                gpu::GpuMode::Hybrid
            } else {
                gpu::GpuMode::Integrated
            })
            &&& key == Key::Right ==> new.gpu.pending_mode == (if a.gpu.has_mux && !(
            was is Integrated) {
                gpu::GpuMode::Ultimate
            } else {
                gpu::GpuMode::Hybrid
            })
            &&& key != Key::Left && key != Key::Right ==> new == a
        }),
{
}

/// In the settings tab up and down lead from row to row, and the keys of a row
/// change only what it shows: the limit, whether it is applied at the start, and
/// the interval.
pub proof fn law_settings_rows(a: TuiApp, key: Key)
    requires
        a.settings_cursor <= 3,
    ensures
        ({
            let (new, action) = settings_pressed(a, key);
            let at = a.settings_cursor;
            &&& key == Key::Down || key == Key::Char('j') ==> new == (TuiApp {
                settings_cursor: if at < 3 {
                    (at + 1) as usize
                } else {
                    3
                },
                ..a
            })
            &&& key == Key::Up || key == Key::Char('k') ==> new == (TuiApp {
                settings_cursor: if at > 0 {
                    (at - 1) as usize
                } else {
                    0
                },
                ..a
            })
            &&& new.config.charge_limit != a.config.charge_limit ==> at == 0
            &&& new.desired_limit != a.desired_limit ==> at == 0
            &&& new.config.auto_apply_on_start != a.config.auto_apply_on_start ==> at == 1 && (key
                == Key::Enter || key == Key::Char(' '))
            &&& new.config.refresh_secs != a.config.refresh_secs ==> at == 2
            &&& new.config.persistent_limit == a.config.persistent_limit
            &&& key == Key::Left ==> new.config.refresh_secs <= a.config.refresh_secs
            &&& key == Key::Right ==> new.config.refresh_secs >= a.config.refresh_secs
            &&& at == 3 && (key == Key::Enter || key == Key::Char(' ')) ==> new == a && action
                == Action::RunSetup(a.desired_limit)
        }),
{
}

/// In the audio tab `Tab` leads to the first row of the other section, and up and
/// down lead from row to row, from the first to the last.
pub proof fn law_audio_rows(a: TuiApp, key: Key, now: u64, new: TuiApp, action: Action)
    requires
        a.audio.section <= 1,
        a.audio.countable(),
        a.audio.cursor_on_row(),
        audio_pressed(a, key, now, new, action),
    ensures
        ({
            let rows = audio::rows(a.audio.devices()) as int;
            let at = a.audio.cursor as int;
            &&& key == Key::Tab ==> new.audio.section == 1 - a.audio.section && new.audio.cursor
                == 0
            &&& key == Key::Down || key == Key::Char('j') ==> new.audio.section == a.audio.section
                && new.audio.cursor == (if at + 1 < rows {
                at + 1
            } else {
                at
            })
            &&& key == Key::Up || key == Key::Char('k') ==> new.audio.section == a.audio.section
                && new.audio.cursor == (if at > 0 {
                at - 1
            } else {
                0
            })
            &&& new.audio.sinks == a.audio.sinks && new.audio.sources == a.audio.sources
            &&& key == Key::Tab || key == Key::Down || key == Key::Up || key == Key::Char('j') || key
                == Key::Char('k') ==> action is Nothing
        }),
{
}

/// Without a device to act on, a key that would act on one says so and asks for
/// nothing.
pub proof fn law_no_device(a: TuiApp, key: Key, now: u64, new: TuiApp, action: Action)
    requires
        a.audio.devices().len() == 0,
        key == Key::Left || key == Key::Right || key == Key::Char(' ') || key == Key::Char('d'),
        audio_pressed(a, key, now, new, action),
    ensures
        action is Nothing,
        new.status matches Status::Failure(m) && m@ == "No device"@,
        new.audio == a.audio,
{
}

/// What is said once a setting is set names it and, where it is one of several
/// values, the value that was chosen.
pub proof fn law_cpu_message(c: CpuManager)
    ensures
        cpu_message(c, CpuSetting::Governor) == "governor: "@ + c.pending_governor@,
        cpu_message(c, CpuSetting::Epp) == "EPP: "@ + c.pending_epp@,
        cpu_message(c, CpuSetting::Boost) == "CPU boost "@ + (if c.pending_boost {
            "enabled"@
        } else {
            "disabled"@
        }),
        cpu_message(c, CpuSetting::Thermal) == c.pending_thermal.spec_label()
            + " thermal profile active"@,
        forall|k: PptKind|
            #[trigger] cpu_message(c, CpuSetting::Ppt(k)) == k.spec_label() + " updated"@,
{
}


/// Everything is read again exactly once the interval has passed since it was
/// read last; once due it stays due until then.
pub proof fn law_reading_due(last: u64, secs: u64, now: u64, later: u64)
    requires
        secs > 0,
    ensures
        is_due(last, secs, now) <==> now >= last + secs * 1_000_000_000,
        !is_due(last, secs, last),
        is_due(last, secs, now) && later >= now ==> is_due(last, secs, later),
{
}

/// What is said stays for its seconds and is taken away after them, with nothing
/// else changed.
pub proof fn law_status_expires(
    a: TuiApp,
    msg: Seq<char>,
    secs: u64,
    said: u64,
    b: TuiApp,
    now: u64,
)
    requires
        says_ok(a, msg, secs, said, b) || says_error(a, msg, secs, said, b),
    ensures
        now - said <= secs * 1_000_000_000 ==> expired(b, now) == b,
        now - said > secs * 1_000_000_000 ==> expired(b, now) == (TuiApp {
            status: Status::Empty,
            status_until: None,
            ..a
        }),
        expired(expired(b, now), now) == expired(b, now),
{
}


/// A change of an audio device is said, but for one of its volume: for two
/// seconds that it was muted or unmuted, for three that a port or a default
/// device was chosen, the latter by the section that is looked at.
pub proof fn law_audio_change_said(a: TuiApp, change: AudioChange, now: u64, new: TuiApp)
    requires
        audio_changed(a, change, now, new),
    ensures
        change == AudioChange::Volume ==> new == a,
        change == AudioChange::Mute ==> says_ok(a, "toggled mute"@, 2, now, new),
        change == AudioChange::Port ==> says_ok(a, "port activated"@, 3, now, new),
        change == AudioChange::DefaultDevice && a.audio.section == 0 ==> says_ok(
            a,
            "default "@ + "output"@ + " set"@,
            3,
            now,
            new,
        ),
        change == AudioChange::DefaultDevice && a.audio.section != 0 ==> says_ok(
            a,
            "default "@ + "input"@ + " set"@,
            3,
            now,
            new,
        ),
        new.audio == a.audio,
{
}

/// The limit that is set again at each start is the configured one, and only
/// where the service for it is active.
pub proof fn law_limit_persists(a: TuiApp)
    ensures
        a.spec_limit_to_persist() is Some <==> a.battery.info.persistent_enabled,
        a.spec_limit_to_persist() matches Some(l) ==> l == a.config.charge_limit,
{
}

} // verus!
