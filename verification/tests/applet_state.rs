use cosmic_sys_monitor::applet::{AppModel, Effect, Message, TrafficOverflow};
use cosmic_sys_monitor::config::{Config, Setting};
use cosmic_sys_monitor::panel::{panel_layout, PanelItem};

#[test]
fn default_config_values() {
    let c = Config::default();
    assert_eq!(c.update_interval_ms, 1000);
    assert!(c.show_cpu && c.show_cpu_temp && c.show_ram && c.show_gpu);
    assert!(!c.show_gpu_temp && !c.show_gpu_vram);
    assert!(c.show_disk && c.show_disk_space && c.show_net);
    assert_eq!(Config::VERSION, 1);
}

#[test]
fn toggling_twice_restores_the_settings() {
    let settings = [
        Setting::Cpu,
        Setting::CpuTemp,
        Setting::Ram,
        Setting::Gpu,
        Setting::GpuTemp,
        Setting::GpuVram,
        Setting::Disk,
        Setting::DiskSpace,
        Setting::Net,
    ];
    for s in settings {
        let mut c = Config::default();
        c.toggle(s);
        assert_ne!(c, Config::default());
        c.toggle(s);
        assert_eq!(c, Config::default());
    }
}

#[test]
fn a_switch_message_flips_one_setting_and_asks_to_save() {
    let mut m = AppModel::new(Config::default());
    assert_eq!(m.update(Message::ToggleGpuVram), Effect::SaveConfig);
    assert!(m.config.show_gpu_vram);
    let mut expected = Config::default();
    expected.show_gpu_vram = true;
    assert_eq!(m.config, expected);
}

#[test]
fn the_popup_opens_and_closes_on_clicks() {
    let mut m = AppModel::new(Config::default());
    assert_eq!(m.popup, None);
    assert_eq!(m.update(Message::TogglePopup), Effect::OpenPopup);
    m.popup_opened(7);
    assert_eq!(m.popup, Some(7));
    assert_eq!(m.update(Message::TogglePopup), Effect::DestroyPopup(7));
    assert_eq!(m.popup, None);
}

#[test]
fn a_close_report_only_clears_its_own_popup() {
    let mut m = AppModel::new(Config::default());
    m.popup_opened(3);
    assert_eq!(m.update(Message::PopupClosed(4)), Effect::Nothing);
    assert_eq!(m.popup, Some(3));
    assert_eq!(m.update(Message::PopupClosed(3)), Effect::Nothing);
    assert_eq!(m.popup, None);
}

#[test]
fn a_tick_asks_for_readings() {
    let mut m = AppModel::new(Config::default());
    assert_eq!(m.update(Message::Tick), Effect::Refresh);
    assert_eq!(m.popup, None);
    assert_eq!(m.config, Config::default());
}

#[test]
fn the_model_starts_without_traffic() {
    let m = AppModel::new(Config::default());
    assert_eq!(m.download_speed, "0 B/s");
    assert_eq!(m.upload_speed, "0 B/s");
    assert_eq!(m.gpu_vram_used, 0);
    assert_eq!(m.gpu_vram_total, 0);
    assert_eq!(m.net_text(), "↓0 B/s ↑0 B/s");
}

#[test]
fn readings_set_speeds_and_video_memory() {
    let mut m = AppModel::new(Config::default());
    assert_eq!(m.record_readings(Some((3 << 20, 8 << 30)), &vec![(1000, 2048), (536, 0)]), Ok(()));
    assert_eq!(m.download_speed, "1.5 KB/s");
    assert_eq!(m.upload_speed, "2.0 KB/s");
    assert_eq!((m.gpu_vram_used, m.gpu_vram_total), (3 << 20, 8 << 30));
    assert_eq!(m.record_readings(None, &vec![(10, 20)]), Ok(()));
    assert_eq!((m.gpu_vram_used, m.gpu_vram_total), (3 << 20, 8 << 30));
    assert_eq!(m.net_text(), "↓10 B/s ↑20 B/s");
}

#[test]
fn overflowing_traffic_records_nothing() {
    let mut m = AppModel::new(Config::default());
    assert_eq!(m.record_readings(Some((1, 2)), &vec![(u64::MAX, 0), (1, 0)]), Err(TrafficOverflow));
    assert_eq!(m.download_speed, "0 B/s");
    assert_eq!(m.gpu_vram_total, 0);
}

#[test]
fn video_memory_text_needs_the_switch_and_a_total() {
    let mut m = AppModel::new(Config::default());
    m.record_readings(Some((3 << 20, 8 << 30)), &vec![]).unwrap();
    assert_eq!(m.gpu_vram_suffix(), None);
    m.update(Message::ToggleGpuVram);
    assert_eq!(m.gpu_vram_suffix(), Some("|0/8GB".to_string()));
    m.record_readings(Some((1 << 30, 1 << 30)), &vec![]).unwrap();
    assert_eq!(m.gpu_vram_suffix(), Some("|1/1GB".to_string()));
    let mut fresh = AppModel::new(Config::default());
    fresh.update(Message::ToggleGpuVram);
    assert_eq!(fresh.gpu_vram_suffix(), None);
}

#[test]
fn the_panel_row_follows_the_switches() {
    assert_eq!(
        panel_layout(&Config::default()),
        vec![
            PanelItem::Cpu,
            PanelItem::Separator,
            PanelItem::Ram,
            PanelItem::Separator,
            PanelItem::Gpu,
            PanelItem::Separator,
            PanelItem::Disk,
            PanelItem::Separator,
            PanelItem::Net
        ]
    );
    let mut c = Config::default();
    c.show_ram = false;
    c.show_net = false;
    assert_eq!(panel_layout(&c), vec![
            PanelItem::Cpu,
            PanelItem::Separator,
            PanelItem::Gpu,
            PanelItem::Separator,
            PanelItem::Disk,
            PanelItem::Separator
        ]);
}

#[test]
fn a_switch_message_twice_restores_the_settings_and_keeps_the_popup() {
    let mut m = AppModel::new(Config::default());
    m.popup_opened(9);
    assert_eq!(m.update(Message::ToggleDiskSpace), Effect::SaveConfig);
    assert_eq!(m.update(Message::ToggleDiskSpace), Effect::SaveConfig);
    assert_eq!(m.config, Config::default());
    assert_eq!(m.popup, Some(9));
}

#[test]
fn speeds_are_per_second_of_the_refresh_interval() {
    let mut c = Config::default();
    c.update_interval_ms = 2000;
    let mut m = AppModel::new(c);
    assert_eq!(m.record_readings(None, &vec![(2048, 3000)]), Ok(()));
    assert_eq!(m.download_speed, "1.0 KB/s");
    assert_eq!(m.upload_speed, "1.5 KB/s");
    c.update_interval_ms = 250;
    let mut m = AppModel::new(c);
    assert_eq!(m.record_readings(None, &vec![(262_144, 1)]), Ok(()));
    assert_eq!(m.download_speed, "1.0 MB/s");
    assert_eq!(m.upload_speed, "4 B/s");
    c.update_interval_ms = 1;
    let mut m = AppModel::new(c);
    assert_eq!(m.record_readings(None, &vec![(u64::MAX, 0)]), Ok(()));
    assert_eq!(
        m.download_speed,
        format!("{:.1} MB/s", (u64::MAX as u128 * 1000) as f64 / 1024.0 / 1024.0)
    );
}

#[test]
fn the_popup_over_a_run_of_messages() {
    let mut m = AppModel::new(Config::default());
    assert_eq!(m.update(Message::TogglePopup), Effect::OpenPopup);
    m.popup_opened(1);
    assert_eq!(m.update(Message::Tick), Effect::Refresh);
    assert_eq!(m.update(Message::ToggleNet), Effect::SaveConfig);
    assert_eq!(m.update(Message::PopupClosed(2)), Effect::Nothing);
    assert_eq!(m.popup, Some(1));
    assert_eq!(m.update(Message::PopupClosed(1)), Effect::Nothing);
    assert_eq!(m.popup, None);
    assert_eq!(m.update(Message::TogglePopup), Effect::OpenPopup);
    m.popup_opened(3);
    assert_eq!(m.update(Message::TogglePopup), Effect::DestroyPopup(3));
    assert_eq!(m.update(Message::TogglePopup), Effect::OpenPopup);
}
