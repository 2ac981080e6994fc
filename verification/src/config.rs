use vstd::prelude::*;

verus! {

/// The applet's settings: how often the readings are refreshed and which
/// metrics the panel shows.
#[derive(Clone, Copy, Debug, PartialEq, Eq, Structural)]
pub struct Config {
    pub update_interval_ms: u64,
    pub show_cpu: bool,
    pub show_cpu_temp: bool,
    pub show_ram: bool,
    pub show_gpu: bool,
    pub show_gpu_temp: bool,
    pub show_gpu_vram: bool,
    pub show_disk: bool,
    pub show_disk_space: bool,
    pub show_net: bool,
}

/// One of the switches of the settings popup.
#[derive(Clone, Copy, Debug, PartialEq, Eq, Structural)]
pub enum Setting {
    Cpu,
    CpuTemp,
    Ram,
    Gpu,
    GpuTemp,
    GpuVram,
    Disk,
    DiskSpace,
    Net,
}

impl Config {
    /// Version of the stored settings' layout.
    pub const VERSION: u64 = 1;

    /// The settings a fresh installation starts with.
    pub open spec fn spec_default() -> Config {
        Config {
            update_interval_ms: 1000,
            show_cpu: true,
            show_cpu_temp: true,
            show_ram: true,
            show_gpu: true,
            show_gpu_temp: false,
            show_gpu_vram: false,
            show_disk: true,
            show_disk_space: true,
            show_net: true,
        }
    }

    /// Whether the switch `s` is on.
    pub open spec fn shown(self, s: Setting) -> bool {
        match s {
            Setting::Cpu => self.show_cpu,
            Setting::CpuTemp => self.show_cpu_temp,
            Setting::Ram => self.show_ram,
            Setting::Gpu => self.show_gpu,
            Setting::GpuTemp => self.show_gpu_temp,
            Setting::GpuVram => self.show_gpu_vram,
            Setting::Disk => self.show_disk,
            Setting::DiskSpace => self.show_disk_space,
            Setting::Net => self.show_net,
        }
    }

    /// These settings with the switch `s` set to `on` and nothing else changed.
    pub open spec fn with_shown(self, s: Setting, on: bool) -> Config {
        match s {
            Setting::Cpu => Config { show_cpu: on, ..self },
            Setting::CpuTemp => Config { show_cpu_temp: on, ..self },
            Setting::Ram => Config { show_ram: on, ..self },
            Setting::Gpu => Config { show_gpu: on, ..self },
            Setting::GpuTemp => Config { show_gpu_temp: on, ..self },
            Setting::GpuVram => Config { show_gpu_vram: on, ..self },
            Setting::Disk => Config { show_disk: on, ..self },
            Setting::DiskSpace => Config { show_disk_space: on, ..self },
            Setting::Net => Config { show_net: on, ..self },
        }
    }

    /// These settings with the switch `s` flipped.
    pub open spec fn toggled(self, s: Setting) -> Config {
        self.with_shown(s, !self.shown(s))
    }

    /// Flips the switch `s`, as the popup's toggler does.
    pub fn toggle(&mut self, s: Setting)
        ensures
            *final(self) == old(self).toggled(s),
    {
        match s {
            Setting::Cpu => self.show_cpu = !self.show_cpu,
            Setting::CpuTemp => self.show_cpu_temp = !self.show_cpu_temp,
            Setting::Ram => self.show_ram = !self.show_ram,
            Setting::Gpu => self.show_gpu = !self.show_gpu,
            Setting::GpuTemp => self.show_gpu_temp = !self.show_gpu_temp,
            Setting::GpuVram => self.show_gpu_vram = !self.show_gpu_vram,
            Setting::Disk => self.show_disk = !self.show_disk,
            Setting::DiskSpace => self.show_disk_space = !self.show_disk_space,
            Setting::Net => self.show_net = !self.show_net,
        }
    }
}

impl Default for Config {
    fn default() -> (c: Config)
        ensures
            c == Config::spec_default(),
            c.update_interval_ms == 1000,
            c.show_cpu && c.show_cpu_temp && c.show_ram && c.show_gpu,
            !c.show_gpu_temp && !c.show_gpu_vram,
            c.show_disk && c.show_disk_space && c.show_net,
    {
        Config {
            update_interval_ms: 1000,
            show_cpu: true,
            show_cpu_temp: true,
            show_ram: true,
            show_gpu: true,
            show_gpu_temp: false,
            show_gpu_vram: false,
            show_disk: true,
            show_disk_space: true,
            show_net: true,
        }
    }
}

/// Flipping a switch turns it to the opposite state and leaves the refresh
/// interval and every other switch as they were.
pub proof fn lemma_toggle_flips_only_its_setting(c: Config, s: Setting, t: Setting)
    ensures
        c.toggled(s).shown(s) == !c.shown(s),
        t != s ==> c.toggled(s).shown(t) == c.shown(t),
        c.toggled(s).update_interval_ms == c.update_interval_ms,
{
}

/// Flipping the same switch twice gives back the settings one started with.
pub proof fn lemma_toggle_twice_restores(c: Config, s: Setting)
    ensures
        c.toggled(s).toggled(s) == c,
{
}

/// Each switch flips the setting of its own name and leaves the refresh
/// interval and every other setting as they were.
pub proof fn lemma_each_switch_flips_its_own_field(c: Config)
    ensures
        c.toggled(Setting::Cpu) == (Config { show_cpu: !c.show_cpu, ..c }),
        c.toggled(Setting::CpuTemp) == (Config { show_cpu_temp: !c.show_cpu_temp, ..c }),
        c.toggled(Setting::Ram) == (Config { show_ram: !c.show_ram, ..c }),
        c.toggled(Setting::Gpu) == (Config { show_gpu: !c.show_gpu, ..c }),
        c.toggled(Setting::GpuTemp) == (Config { show_gpu_temp: !c.show_gpu_temp, ..c }),
        c.toggled(Setting::GpuVram) == (Config { show_gpu_vram: !c.show_gpu_vram, ..c }),
        c.toggled(Setting::Disk) == (Config { show_disk: !c.show_disk, ..c }),
        c.toggled(Setting::DiskSpace) == (Config { show_disk_space: !c.show_disk_space, ..c }),
        c.toggled(Setting::Net) == (Config { show_net: !c.show_net, ..c }),
{
}

} // verus!
