use bucksaw::colors::clamp_index;
use bucksaw::colors::Color;
use bucksaw::colors::ColorLookupTable;
use bucksaw::colors::Colorscheme;
use bucksaw::colors::COLORGRAD_LOOKUP_SIZE;
use bucksaw::settings::fft_size_index;
use bucksaw::settings::FftSettings;
use bucksaw::settings::Refresh;
use bucksaw::settings::SettingsError;
use bucksaw::tabs::FlightViewTab;

fn ramp() -> Vec<Color> {
    (0..COLORGRAD_LOOKUP_SIZE).map(|i| Color::from_rgb(i as u8, 0, 255 - i as u8)).collect()
}

#[test]
fn index_is_held_to_the_slots() {
    assert_eq!(clamp_index(-1, 128), 0);
    assert_eq!(clamp_index(i64::MIN, 128), 0);
    assert_eq!(clamp_index(0, 128), 0);
    assert_eq!(clamp_index(64, 128), 64);
    assert_eq!(clamp_index(127, 128), 127);
    assert_eq!(clamp_index(128, 128), 127);
    assert_eq!(clamp_index(i64::MAX, 128), 127);
    assert_eq!(clamp_index(5, 1), 0);
}

#[test]
fn colors_are_made_channel_by_channel() {
    assert_eq!(Color::from_rgb(1, 2, 3), Color { r: 1, g: 2, b: 3, a: 255 });
    assert_eq!(Color::transparent(), Color { r: 0, g: 0, b: 0, a: 0 });
    assert_eq!(Colorscheme::default(), Colorscheme::Inferno);
}

#[test]
fn table_needs_all_its_colors() {
    assert!(ColorLookupTable::new(Colorscheme::Turbo, Vec::new()).is_none());
    assert!(ColorLookupTable::new(Colorscheme::Turbo, vec![Color::transparent(); 127]).is_none());
    assert!(ColorLookupTable::new(Colorscheme::Turbo, vec![Color::transparent(); 129]).is_none());
    let table = ColorLookupTable::new(Colorscheme::Turbo, ramp()).unwrap();
    assert_eq!(table.colorscheme(), Colorscheme::Turbo);
    assert_eq!(table.color_at(0), Color::from_rgb(0, 0, 255));
    assert_eq!(table.color_at(-7), Color::from_rgb(0, 0, 255));
    assert_eq!(table.color_at(64), Color::from_rgb(64, 0, 191));
    assert_eq!(table.color_at(127), Color::from_rgb(127, 0, 128));
    assert_eq!(table.color_at(128), Color::from_rgb(127, 0, 128));
    assert_eq!(table.color_at(100_000), Color::from_rgb(127, 0, 128));
}

#[test]
fn supported_sizes_have_a_place() {
    assert_eq!(fft_size_index(256), Some(0));
    assert_eq!(fft_size_index(512), Some(1));
    assert_eq!(fft_size_index(1024), Some(2));
    assert_eq!(fft_size_index(2048), Some(3));
    assert_eq!(fft_size_index(0), None);
    assert_eq!(fft_size_index(255), None);
    assert_eq!(fft_size_index(4096), None);
}

#[test]
fn faulty_settings_are_refused() {
    assert_eq!(FftSettings::new(0, 8, Colorscheme::Turbo).err(), Some(SettingsError::ZeroWindow));
    assert_eq!(FftSettings::new(0, 0, Colorscheme::Turbo).err(), Some(SettingsError::ZeroWindow));
    assert_eq!(
        FftSettings::new(300, 8, Colorscheme::Turbo).err(),
        Some(SettingsError::UnsupportedWindow)
    );
    assert_eq!(FftSettings::new(256, 0, Colorscheme::Turbo).err(), Some(SettingsError::ZeroStep));
    assert_eq!(
        FftSettings::new(256, 257, Colorscheme::Turbo).err(),
        Some(SettingsError::StepExceedsWindow)
    );
    assert_eq!(
        FftSettings::new(512, 1024, Colorscheme::Turbo).err(),
        Some(SettingsError::StepExceedsWindow)
    );
}

#[test]
fn sound_settings_are_taken() {
    let settings = FftSettings::new(1024, 1024, Colorscheme::Viridis).ok().unwrap();
    assert_eq!(settings.size(), 1024);
    assert_eq!(settings.step_size(), 1024);
    assert_eq!(settings.plot_colorscheme(), Colorscheme::Viridis);
    assert!(settings.lookup_is_stale());
    let settings = FftSettings::new(2048, 1, Colorscheme::Turbo).ok().unwrap();
    assert_eq!(settings.size(), 2048);
    assert_eq!(settings.step_size(), 1);
}

#[test]
fn default_settings() {
    let settings = FftSettings::default();
    assert_eq!(settings.size(), 256);
    assert_eq!(settings.step_size(), 8);
    assert_eq!(settings.plot_colorscheme(), Colorscheme::Inferno);
    assert!(settings.lookup_is_stale());
    assert!(settings.color_lookup_table().is_none());
    assert_eq!(settings.color_at(3), None);
}

#[test]
fn a_change_of_sizes_asks_for_new_spectra() {
    let base = FftSettings::new(256, 8, Colorscheme::Inferno).ok().unwrap();
    let wider = FftSettings::new(512, 8, Colorscheme::Inferno).ok().unwrap();
    let faster = FftSettings::new(256, 32, Colorscheme::Inferno).ok().unwrap();
    let same = FftSettings::new(256, 8, Colorscheme::Inferno).ok().unwrap();
    let recolored = FftSettings::new(256, 8, Colorscheme::Turbo).ok().unwrap();
    assert!(wider.needs_recalculating(&base));
    assert!(faster.needs_recalculating(&base));
    assert!(!same.needs_recalculating(&base));
    assert!(!recolored.needs_recalculating(&base));
    assert!(wider.needs_redrawing(&base, false));
    assert!(recolored.needs_redrawing(&base, false));
    assert!(!same.needs_redrawing(&base, false));
    assert!(same.needs_redrawing(&base, true));
    assert!(!base.needs_redrawing(&base.clone(), false));
    assert_eq!(recolored.needs_redrawing(&base, false), base.needs_redrawing(&recolored, false));
    assert_eq!(wider.refresh_after(&base, false), Refresh::Recalculate);
    assert_eq!(faster.refresh_after(&base, true), Refresh::Recalculate);
    assert_eq!(recolored.refresh_after(&base, false), Refresh::Redraw);
    assert_eq!(same.refresh_after(&base, true), Refresh::Redraw);
    assert_eq!(same.refresh_after(&base, false), Refresh::Keep);
}

#[test]
fn lookup_is_stale_until_made_for_the_gradient() {
    let mut settings = FftSettings::default();
    assert!(!settings.install_lookup(vec![Color::transparent(); 5]));
    assert!(settings.lookup_is_stale());
    assert!(settings.install_lookup(ramp()));
    assert!(!settings.lookup_is_stale());
    assert_eq!(settings.color_at(2), Some(Color::from_rgb(2, 0, 253)));
    assert_eq!(settings.color_at(500), Some(Color::from_rgb(127, 0, 128)));
    assert_eq!(settings.color_lookup_table().unwrap().colorscheme(), Colorscheme::Inferno);
    settings.set_plot_colorscheme(Colorscheme::Turbo);
    assert!(settings.lookup_is_stale());
    assert_eq!(settings.color_at(2), None);
    settings.set_plot_colorscheme(Colorscheme::Inferno);
    assert!(!settings.lookup_is_stale());
    assert_eq!(settings.size(), 256);
}

#[test]
fn tabs_have_labels() {
    assert_eq!(FlightViewTab::default(), FlightViewTab::Plot);
    assert_eq!(FlightViewTab::Plot.label(), "🗠  Plot");
    assert_eq!(FlightViewTab::Tune.label(), "⛭  Tune");
    assert_eq!(FlightViewTab::Vibe.label(), "💃 Vibe");
    for tab in FlightViewTab::all() {
        assert_eq!(tab.short_label(), tab.label().split(' ').next().unwrap());
    }
    assert_eq!(
        FlightViewTab::all(),
        [FlightViewTab::Plot, FlightViewTab::Tune, FlightViewTab::Vibe]
    );
}
