use vstd::prelude::*;

use crate::config::{Config, Setting};
use crate::panel::{speed_string, speed_text, total_received, total_transmitted, traffic_totals};
use crate::text::{decimal, push_decimal};

verus! {

/// What the applet reacts to: a refresh tick, a click on the panel button,
/// the popup being closed, or a switch of the settings popup.
#[derive(Clone, Copy, Debug, PartialEq, Eq, Structural)]
pub enum Message {
    Tick,
    TogglePopup,
    PopupClosed(u64),
    ToggleCpu,
    ToggleCpuTemp,
    ToggleRam,
    ToggleGpu,
    ToggleGpuTemp,
    ToggleGpuVram,
    ToggleDisk,
    ToggleDiskSpace,
    ToggleNet,
}

/// What the applet has to do after handling a message.
#[derive(Clone, Copy, Debug, PartialEq, Eq, Structural)]
pub enum Effect {
    /// Take fresh readings and record them.
    Refresh,
    /// Open the settings popup under a fresh window id, then report that id.
    OpenPopup,
    /// Close the popup window with this id.
    DestroyPopup(u64),
    /// Store the settings.
    SaveConfig,
    /// Nothing.
    Nothing,
}

/// The sums of the network traffic did not fit in 64 bits.
#[derive(Clone, Copy, Debug, PartialEq, Eq, Structural)]
pub struct TrafficOverflow;

/// The applet's state that is made of plain values: the open popup, the
/// settings, the last video memory figures and the last network speeds.
pub struct AppModel {
    pub popup: Option<u64>,
    pub config: Config,
    pub gpu_vram_used: u64,
    pub gpu_vram_total: u64,
    pub download_speed: String,
    pub upload_speed: String,
}

/// The switch that a message flips, if it flips one.
pub open spec fn setting_of(m: Message) -> Option<Setting> {
    match m {
        Message::ToggleCpu => Some(Setting::Cpu),
        Message::ToggleCpuTemp => Some(Setting::CpuTemp),
        Message::ToggleRam => Some(Setting::Ram),
        Message::ToggleGpu => Some(Setting::Gpu),
        Message::ToggleGpuTemp => Some(Setting::GpuTemp),
        Message::ToggleGpuVram => Some(Setting::GpuVram),
        Message::ToggleDisk => Some(Setting::Disk),
        Message::ToggleDiskSpace => Some(Setting::DiskSpace),
        Message::ToggleNet => Some(Setting::Net),
        _ => None,
    }
}

/// The popup after a message: a click closes an open popup, and a close
/// report clears the popup it names; nothing else changes it.
pub open spec fn next_popup(popup: Option<u64>, m: Message) -> Option<u64> {
    match m {
        Message::TogglePopup => None,
        Message::PopupClosed(id) => if popup == Some(id) {
            None
        } else {
            popup
        },
        _ => popup,
    }
}

/// The settings after a message: a switch flips its setting.
pub open spec fn next_config(c: Config, m: Message) -> Config {
    match setting_of(m) {
        Some(s) => c.toggled(s),
        None => c,
    }
}

/// What the applet does after a message in a state whose popup is `popup`.
pub open spec fn effect_of(popup: Option<u64>, m: Message) -> Effect {
    match m {
        Message::Tick => Effect::Refresh,
        Message::TogglePopup => match popup {
            Some(p) => Effect::DestroyPopup(p),
            None => Effect::OpenPopup,
        },
        Message::PopupClosed(_) => Effect::Nothing,
        _ => Effect::SaveConfig,
    }
}

/// The text that follows the usage on the graphics segment when the video
/// memory is shown: `|used/totalGB`, each figure the bytes over 1024^3,
/// rounded down.
pub open spec fn vram_text(used: nat, total: nat) -> Seq<char> {
    "|"@ + decimal(used / 0x4000_0000) + "/"@ + decimal(total / 0x4000_0000) + "GB"@
}

/// The rate, in bytes per second, of `bytes` transferred over one refresh
/// interval of `interval_ms` milliseconds, rounded down.
pub open spec fn per_second(bytes: nat, interval_ms: nat) -> nat {
    bytes * 1000 / interval_ms
}

/// The rate, in bytes per second, of `bytes` over `interval_ms` milliseconds.
fn rate_per_second(bytes: u64, interval_ms: u64) -> (r: u128)
    requires
        interval_ms > 0,
    ensures
        r == per_second(bytes as nat, interval_ms as nat),
        r < crate::text::f64_input_limit(),
{
    let r = (bytes as u128 * 1000) / (interval_ms as u128);
    assert(r <= bytes * 1000) by (nonlinear_arith)
        requires
            r == (bytes * 1000) / (interval_ms as int),
            interval_ms >= 1,
            bytes >= 0,
    ;
    r
}

impl AppModel {
    /// The state the applet starts in with the settings `config`: no popup,
    /// no video memory figures and no traffic.
    pub open spec fn starts_with_config(self, config: Config) -> bool {
        &&& self.popup is None
        &&& self.config == config
        &&& self.gpu_vram_used == 0
        &&& self.gpu_vram_total == 0
        &&& self.download_speed@ == "0 B/s"@
        &&& self.upload_speed@ == "0 B/s"@
    }

    /// The state the applet starts in, with the settings that were stored.
    pub fn new(config: Config) -> (m: AppModel)
        ensures
            m.starts_with_config(config),
    {
        AppModel {
            popup: None,
            config,
            gpu_vram_used: 0,
            gpu_vram_total: 0,
            download_speed: String::from_str("0 B/s"),
            upload_speed: String::from_str("0 B/s"),
        }
    }

    /// Handles a message: updates the popup and the settings and says what
    /// the applet must do next.
    pub fn update(&mut self, message: Message) -> (e: Effect)
        ensures
            final(self).popup == next_popup(old(self).popup, message),
            final(self).config == next_config(old(self).config, message),
            final(self).gpu_vram_used == old(self).gpu_vram_used,
            final(self).gpu_vram_total == old(self).gpu_vram_total,
            final(self).download_speed == old(self).download_speed,
            final(self).upload_speed == old(self).upload_speed,
            e == effect_of(old(self).popup, message),
    {
        match message {
            Message::Tick => Effect::Refresh,
            Message::TogglePopup => match self.popup.take() {
                Some(p) => Effect::DestroyPopup(p),
                None => Effect::OpenPopup,
            },
            Message::PopupClosed(id) => {
                if self.popup == Some(id) {
                    self.popup = None;
                }
                Effect::Nothing
            },
            Message::ToggleCpu => {
                self.config.toggle(Setting::Cpu);
                Effect::SaveConfig
            },
            Message::ToggleCpuTemp => {
                self.config.toggle(Setting::CpuTemp);
                Effect::SaveConfig
            },
            Message::ToggleRam => {
                self.config.toggle(Setting::Ram);
                Effect::SaveConfig
            },
            Message::ToggleGpu => {
                self.config.toggle(Setting::Gpu);
                Effect::SaveConfig
            },
            Message::ToggleGpuTemp => {
                self.config.toggle(Setting::GpuTemp);
                Effect::SaveConfig
            },
            Message::ToggleGpuVram => {
                self.config.toggle(Setting::GpuVram);
                Effect::SaveConfig
            },
            Message::ToggleDisk => {
                self.config.toggle(Setting::Disk);
                Effect::SaveConfig
            },
            Message::ToggleDiskSpace => {
                self.config.toggle(Setting::DiskSpace);
                Effect::SaveConfig
            },
            Message::ToggleNet => {
                self.config.toggle(Setting::Net);
                Effect::SaveConfig
            },
        }
    }

    /// Records that the popup asked for by `Effect::OpenPopup` was opened
    /// under the window id `id`.
    pub fn popup_opened(&mut self, id: u64)
        ensures
            final(self).popup == Some(id),
            final(self).config == old(self).config,
            final(self).gpu_vram_used == old(self).gpu_vram_used,
            final(self).gpu_vram_total == old(self).gpu_vram_total,
            final(self).download_speed == old(self).download_speed,
            final(self).upload_speed == old(self).upload_speed,
    {
        self.popup = Some(id);
    }

    /// Records a tick's readings: the video memory figures when some source
    /// gave them, and the traffic of each network interface over the last
    /// refresh interval as `(received, transmitted)` bytes, whose sums become
    /// the two speed texts in bytes per second. When a sum does not fit in 64
    /// bits nothing is recorded.
    pub fn record_readings(&mut self, vram: Option<(u64, u64)>, traffic: &Vec<(u64, u64)>) -> (r:
        Result<(), TrafficOverflow>)
        requires
            old(self).config.update_interval_ms > 0,
        ensures
            r is Err <==> total_received(traffic@) > u64::MAX || total_transmitted(traffic@)
                > u64::MAX,
            r is Err ==> *final(self) == *old(self),
            r is Ok ==> {
                &&& final(self).popup == old(self).popup
                &&& final(self).config == old(self).config
                &&& final(self).gpu_vram_used == match vram {
                    Some(v) => v.0,
                    None => old(self).gpu_vram_used,
                }
                &&& final(self).gpu_vram_total == match vram {
                    Some(v) => v.1,
                    None => old(self).gpu_vram_total,
                }
                &&& final(self).download_speed@ == speed_text(
                    per_second(total_received(traffic@), old(self).config.update_interval_ms as nat),
                )
                &&& final(self).upload_speed@ == speed_text(
                    per_second(total_transmitted(traffic@), old(self).config.update_interval_ms as nat),
                )
            },
    {
        match traffic_totals(traffic) {
            None => Err(TrafficOverflow),
            Some((down, up)) => {
                if let Some((used, total)) = vram {
                    self.gpu_vram_used = used;
                    self.gpu_vram_total = total;
                }
                let interval = self.config.update_interval_ms;
                self.download_speed = speed_string(rate_per_second(down, interval));
                self.upload_speed = speed_string(rate_per_second(up, interval));
                Ok(())
            },
        }
    }

    /// The video memory text of the graphics segment: present when the
    /// settings show it and a total is known.
    pub fn gpu_vram_suffix(&self) -> (r: Option<String>)
        ensures
            r is Some <==> self.config.show_gpu_vram && self.gpu_vram_total > 0,
            r matches Some(s) ==> s@ == vram_text(
                self.gpu_vram_used as nat,
                self.gpu_vram_total as nat,
            ),
    {
        if self.config.show_gpu_vram && self.gpu_vram_total > 0 {
            let mut s = String::new();
            s.append("|");
            push_decimal(&mut s, (self.gpu_vram_used / 0x4000_0000) as u128);
            s.append("/");
            push_decimal(&mut s, (self.gpu_vram_total / 0x4000_0000) as u128);
            s.append("GB");
            Some(s)
        } else {
            None
        }
    }
}

/// A click on the panel button opens the popup when none is open, and closes
/// the open one otherwise; after the popup opened under `id`, the next click
/// closes exactly that window.
pub proof fn lemma_popup_click_round_trip(id: u64)
    ensures
        effect_of(None, Message::TogglePopup) == Effect::OpenPopup,
        next_popup(None, Message::TogglePopup) is None,
        effect_of(Some(id), Message::TogglePopup) == Effect::DestroyPopup(id),
        next_popup(Some(id), Message::TogglePopup) is None,
{
}

/// A report that the popup `id` closed forgets that popup, and leaves any
/// other state of the popup as it was.
pub proof fn lemma_close_report(popup: Option<u64>, id: u64)
    ensures
        next_popup(Some(id), Message::PopupClosed(id)) is None,
        popup != Some(id) ==> next_popup(popup, Message::PopupClosed(id)) == popup,
        effect_of(popup, Message::PopupClosed(id)) == Effect::Nothing,
{
}

/// The same switch message twice leaves the settings as they were, and each
/// switch message asks for the settings to be stored.
pub proof fn lemma_switch_message_twice(c: Config, popup: Option<u64>, m: Message)
    requires
        setting_of(m) is Some,
    ensures
        next_config(next_config(c, m), m) == c,
        effect_of(popup, m) == Effect::SaveConfig,
        next_popup(popup, m) == popup,
{
    crate::config::lemma_toggle_twice_restores(c, setting_of(m)->0);
}

/// A tick changes neither the popup nor the settings, and asks for readings.
pub proof fn lemma_tick_only_refreshes(c: Config, popup: Option<u64>)
    ensures
        next_popup(popup, Message::Tick) == popup,
        next_config(c, Message::Tick) == c,
        effect_of(popup, Message::Tick) == Effect::Refresh,
{
}

impl AppModel {
    /// The network segment's text: `↓download ↑upload`.
    pub fn net_text(&self) -> (s: String)
        ensures
            s@ == "↓"@ + self.download_speed@ + " ↑"@ + self.upload_speed@,
    {
        let mut s = String::new();
        s.append("↓");
        s.append(self.download_speed.as_str());
        s.append(" ↑");
        s.append(self.upload_speed.as_str());
        s
    }
}

/// A step of the popup's life: a handled message, or the report that the popup
/// asked for was opened under a window id.
#[derive(Clone, Copy, Debug, PartialEq, Eq, Structural)]
pub enum PopupStep {
    Handle(Message),
    Opened(u64),
}

/// The popup after one step, as `update` and `popup_opened` leave it.
pub open spec fn after_step(popup: Option<u64>, step: PopupStep) -> Option<u64> {
    match step {
        PopupStep::Handle(m) => next_popup(popup, m),
        PopupStep::Opened(id) => Some(id),
    }
}

/// The popup after the steps `steps`, starting from the applet's first state.
pub open spec fn popup_after(steps: Seq<PopupStep>) -> Option<u64>
    decreases steps.len(),
{
    if steps.len() == 0 {
        None
    } else {
        after_step(popup_after(steps.drop_last()), steps.last())
    }
}

/// The step closes the popup `n`: a click, or a close report for `n`.
pub open spec fn closes(step: PopupStep, n: u64) -> bool {
    step == PopupStep::Handle(Message::TogglePopup) || step == PopupStep::Handle(
        Message::PopupClosed(n),
    )
}

/// The popup `n` was the last one opened in `steps`, and no later step closed it.
pub open spec fn still_open(steps: Seq<PopupStep>, n: u64) -> bool {
    exists|i: int|
        0 <= i < steps.len() && steps[i] == PopupStep::Opened(n) && forall|j: int|
            i < j < steps.len() ==> !(#[trigger] steps[j] is Opened) && !closes(steps[j], n)
}

proof fn lemma_still_open_push(p: Seq<PopupStep>, last: PopupStep, n: u64)
    ensures
        still_open(p.push(last), n) <==> (last == PopupStep::Opened(n) || (still_open(p, n)
            && !(last is Opened) && !closes(last, n))),
{
    let s = p.push(last);
    if still_open(s, n) {
        let i = choose|i: int|
            0 <= i < s.len() && s[i] == PopupStep::Opened(n) && forall|j: int|
                i < j < s.len() ==> !(#[trigger] s[j] is Opened) && !closes(s[j], n);
        if i < p.len() {
            assert(s[p.len() as int] == last);
            assert forall|j: int| i < j < p.len() implies !(#[trigger] p[j] is Opened) && !closes(
                p[j],
                n,
            ) by {
                assert(s[j] == p[j]);
            }
            assert(p[i] == s[i]);
        }
    }
    if last == PopupStep::Opened(n) {
        assert(s[p.len() as int] == last);
    } else if still_open(p, n) && !(last is Opened) && !closes(last, n) {
        let i = choose|i: int|
            0 <= i < p.len() && p[i] == PopupStep::Opened(n) && forall|j: int|
                i < j < p.len() ==> !(#[trigger] p[j] is Opened) && !closes(p[j], n);
        assert(s[i] == p[i]);
        assert forall|j: int| i < j < s.len() implies !(#[trigger] s[j] is Opened) && !closes(
            s[j],
            n,
        ) by {
            if j < p.len() {
                assert(s[j] == p[j]);
            } else {
                assert(s[j] == last);
            }
        }
    }
}

/// Over any run of the applet, the popup is the one last opened when no click
/// and no close report for it came since, and there is none otherwise; so the
/// next click opens a popup exactly when none is open.
pub proof fn lemma_popup_over_any_run(steps: Seq<PopupStep>, n: u64)
    ensures
        popup_after(steps) == Some(n) <==> still_open(steps, n),
        effect_of(popup_after(steps), Message::TogglePopup) == Effect::OpenPopup <==> popup_after(
            steps,
        ) is None,
    decreases steps.len(),
{
    if steps.len() > 0 {
        let p = steps.drop_last();
        let last = steps.last();
        assert(p.push(last) =~= steps);
        lemma_popup_over_any_run(p, n);
        lemma_still_open_push(p, last, n);
        match last {
            PopupStep::Handle(Message::PopupClosed(c)) => {
                if popup_after(p) == Some(c) && c != n {
                    lemma_popup_over_any_run(p, c);
                }
            },
            _ => {},
        }
    } else {
        assert(!still_open(steps, n));
    }
}

/// Each switch message flips the setting of its own name and leaves the
/// refresh interval and every other setting as they were.
pub proof fn lemma_each_switch_message_flips_its_own_field(c: Config)
    ensures
        next_config(c, Message::ToggleCpu) == (Config { show_cpu: !c.show_cpu, ..c }),
        next_config(c, Message::ToggleCpuTemp) == (Config { show_cpu_temp: !c.show_cpu_temp, ..c }),
        next_config(c, Message::ToggleRam) == (Config { show_ram: !c.show_ram, ..c }),
        next_config(c, Message::ToggleGpu) == (Config { show_gpu: !c.show_gpu, ..c }),
        next_config(c, Message::ToggleGpuTemp) == (Config { show_gpu_temp: !c.show_gpu_temp, ..c }),
        next_config(c, Message::ToggleGpuVram) == (Config { show_gpu_vram: !c.show_gpu_vram, ..c }),
        next_config(c, Message::ToggleDisk) == (Config { show_disk: !c.show_disk, ..c }),
        next_config(c, Message::ToggleDiskSpace) == (Config {
            show_disk_space: !c.show_disk_space,
            ..c
        }),
        next_config(c, Message::ToggleNet) == (Config { show_net: !c.show_net, ..c }),
        forall|id: u64| #[trigger] next_config(c, Message::PopupClosed(id)) == c,
        next_config(c, Message::TogglePopup) == c,
        next_config(c, Message::Tick) == c,
{
    crate::config::lemma_each_switch_flips_its_own_field(c);
}

/// The rate per second of `bytes` over an interval of `interval_ms`
/// milliseconds is the whole number of bytes per second, rounded down.
pub proof fn lemma_per_second_rounds_down(bytes: nat, interval_ms: nat)
    requires
        interval_ms > 0,
    ensures
        per_second(bytes, interval_ms) * interval_ms <= bytes * 1000,
        bytes * 1000 < (per_second(bytes, interval_ms) + 1) * interval_ms,
{
    let n = (bytes * 1000) as int;
    let d = interval_ms as int;
    vstd::arithmetic::div_mod::lemma_fundamental_div_mod(n, d);
    let q = n / d;
    let r = n % d;
    assert(per_second(bytes, interval_ms) == q);
    assert(q * d <= n < (q + 1) * d) by (nonlinear_arith)
        requires
            n == d * q + r,
            0 <= r < d,
    ;
}

/// The video memory is shown in whole gigabytes (1024^3 bytes), rounded
/// down, used before total.
pub proof fn lemma_vram_in_whole_gigabytes(used: nat, total: nat)
    ensures
        exists|gu: nat, gt: nat|
            vram_text(used, total) == "|"@ + #[trigger] decimal(gu) + "/"@ + #[trigger] decimal(gt)
                + "GB"@ && gu * 0x4000_0000 <= used < (gu + 1) * 0x4000_0000 && gt * 0x4000_0000
                <= total < (gt + 1) * 0x4000_0000,
{
    let gu = used / 0x4000_0000;
    let gt = total / 0x4000_0000;
    assert(vram_text(used, total) == "|"@ + decimal(gu) + "/"@ + decimal(gt) + "GB"@);
}

} // verus!
