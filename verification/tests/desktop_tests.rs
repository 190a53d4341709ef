use flowy::desktop::{
    kde_image_from_lines, parse_wallpaper_output, xfce_image_keys, xfce_list_command,
    xfce_set_command,
};
use flowy::solar_events::SolarTime;
use flowy::{is_gnome_compliant, DesktopEnvt};

#[test]
fn gnome_family_names() {
    assert!(is_gnome_compliant("GNOME"));
    assert!(is_gnome_compliant("ubuntu:GNOME"));
    assert!(is_gnome_compliant("Unity"));
    assert!(is_gnome_compliant("Pantheon"));
    assert!(!is_gnome_compliant("KDE"));
    assert!(!is_gnome_compliant("gnome"));
}

#[test]
fn desktop_names_map_to_environments() {
    assert_eq!(
        DesktopEnvt::from_desktop_name("ubuntu:GNOME"),
        Some(DesktopEnvt::GNOME)
    );
    assert_eq!(
        DesktopEnvt::from_desktop_name("X-Cinnamon"),
        Some(DesktopEnvt::Cinnamon)
    );
    assert_eq!(DesktopEnvt::from_desktop_name("MATE"), Some(DesktopEnvt::MATE));
    assert_eq!(DesktopEnvt::from_desktop_name("XFCE"), Some(DesktopEnvt::XFCE));
    assert_eq!(
        DesktopEnvt::from_desktop_name("Deepin"),
        Some(DesktopEnvt::Deepin)
    );
    assert_eq!(DesktopEnvt::from_desktop_name("KDE"), Some(DesktopEnvt::KDE));
    assert_eq!(
        DesktopEnvt::from_desktop_name("bspwm"),
        Some(DesktopEnvt::BSPWM)
    );
    assert_eq!(DesktopEnvt::from_desktop_name("sway"), None);
}

#[test]
fn quoting_matches_enquote_and_changes_the_path() {
    let path = "/walls/a \"day\" pic.png";
    let (_, args) = DesktopEnvt::GNOME.set_wallpaper_command(path);
    let quoted = args[3].clone();
    assert_eq!(quoted, enquote::enquote('"', path));
    assert_ne!(quoted, path);
    assert_eq!(quoted, "\"/walls/a \\\"day\\\" pic.png\"");
}

#[test]
fn unquoting_inverts_enquote() {
    let path = "/walls/a \"day\" pic.png";
    let quoted = enquote::enquote('"', path);
    assert_eq!(parse_wallpaper_output(&quoted), Some(String::from(path)));
    assert_eq!(parse_wallpaper_output("x"), None);
}

#[test]
fn gnome_set_command() {
    let (prog, args) = DesktopEnvt::GNOME.set_wallpaper_command("/w/a.png");
    assert_eq!(prog, "gsettings");
    assert_eq!(
        args,
        vec![
            "set",
            "org.gnome.desktop.background",
            "picture-uri",
            "\"/w/a.png\""
        ]
    );
}

#[test]
fn mate_set_command_strips_the_uri_scheme() {
    let (prog, args) = DesktopEnvt::MATE.set_wallpaper_command("file:///w/a.png");
    assert_eq!(prog, "dconf");
    assert_eq!(
        args,
        vec![
            "write",
            "/org/mate/desktop/background/picture-filename",
            "/w/a.png"
        ]
    );
}

#[test]
fn kde_set_command_is_the_full_plasma_script() {
    let (prog, args) = DesktopEnvt::KDE.set_wallpaper_command("/w/a.png");
    assert_eq!(prog, "qdbus");
    assert_eq!(args.len(), 4);
    assert_eq!(args[0], "org.kde.plasmashell");
    assert_eq!(args[1], "/PlasmaShell");
    assert_eq!(args[2], "org.kde.PlasmaShell.evaluateScript");
    let expected = format!(
        r#"
                    const monitors = desktops()
                    for (var i = 0; i < monitors.length; i++) {{
                        monitors[i].wallpaperPlugin = "org.kde.image"
                        monitors[i].currentConfigGroup = ["Wallpaper"]
                        monitors[i].writeConfig("Image", {})
                    }}"#,
        "\"/w/a.png\""
    );
    assert_eq!(args[3], expected);
}

#[test]
fn bspwm_set_command_drops_the_quotes() {
    let (prog, args) = DesktopEnvt::BSPWM.set_wallpaper_command("/w/a.png");
    assert_eq!(prog, "feh");
    assert_eq!(args, vec!["--bg-fill", "/w/a.png"]);
}

#[test]
fn get_commands_read_the_settings_store() {
    let (prog, args) = DesktopEnvt::GNOME.get_wallpaper_command("u").unwrap();
    assert_eq!(prog, "gsettings");
    assert_eq!(args, vec!["get", "org.gnome.desktop.background", "picture-uri"]);
    assert!(DesktopEnvt::KDE.get_wallpaper_command("u").is_none());
    let (prog, args) = DesktopEnvt::BSPWM.get_wallpaper_command("user\n").unwrap();
    assert_eq!(prog, "sed");
    assert_eq!(args[2], "/home/user/.fehbg");
}

#[test]
fn wallpaper_output_is_unquoted() {
    assert_eq!(
        parse_wallpaper_output("'/w/a.png'\n"),
        Some(String::from("/w/a.png"))
    );
    assert_eq!(parse_wallpaper_output("not quoted"), None);
}

#[test]
fn kde_config_lines_yield_the_first_image() {
    let lines = vec![
        String::from("[Containments][1]"),
        String::from("Image=file:///w/a.png"),
        String::from("Image=/w/b.png"),
    ];
    assert_eq!(kde_image_from_lines(&lines), Some(String::from("/w/a.png")));
    let no_image = vec![String::from("[Containments][1]")];
    assert_eq!(kde_image_from_lines(&no_image), None);
}

#[test]
fn xfce_listing_yields_every_wallpaper_key() {
    let out = "/backdrop/screen0/monitor0/workspace0/last-image  /w/a.png\n\
               /backdrop/screen0/monitor1/workspace0/last-image  /w/b.png\n\
               /backdrop/screen0/monitor0/workspace0/color-style 0\n";
    let keys = xfce_image_keys(out);
    assert_eq!(
        keys,
        vec![
            "/backdrop/screen0/monitor0/workspace0/last-image",
            "/backdrop/screen0/monitor1/workspace0/last-image"
        ]
    );
}

#[test]
fn xfce_commands() {
    let (prog, args) = xfce_list_command();
    assert_eq!(prog, "xfconf-query");
    assert_eq!(args, vec!["-c", "xfce4-desktop", "-p", "/backdrop/screen0", "-lv"]);
    let (prog, args) = xfce_set_command("/backdrop/screen0/monitor1/workspace0/last-image", "file:///w/b.png");
    assert_eq!(prog, "xfconf-query");
    assert_eq!(args[3], "/backdrop/screen0/monitor1/workspace0/last-image");
    assert_eq!(args[5], "/w/b.png");
}

#[test]
fn solar_events_enumerate_once_in_order() {
    let events = SolarTime::iterator();
    assert_eq!(events.len(), 10);
    assert_eq!(events[0], SolarTime::Noon);
    assert_eq!(events[1], SolarTime::Midnight);
    assert_eq!(events[2], SolarTime::AstroDawn);
    assert_eq!(events[9], SolarTime::AstroDusk);
}

#[test]
fn event_angles_match_the_twilight_table() {
    assert_eq!(SolarTime::AstroDawn.angle_mdeg(), Some(-108_000));
    assert_eq!(SolarTime::NautDawn.angle_mdeg(), Some(-102_000));
    assert_eq!(SolarTime::CivilDawn.angle_mdeg(), Some(-96_000));
    assert_eq!(SolarTime::Sunrise.angle_mdeg(), Some(-90_833));
    assert_eq!(SolarTime::Noon.angle_mdeg(), Some(0));
    assert_eq!(SolarTime::Sunset.angle_mdeg(), Some(90_833));
    assert_eq!(SolarTime::AstroDusk.angle_mdeg(), Some(108_000));
    assert_eq!(SolarTime::Midnight.angle_mdeg(), None);
}
