use rview::cli::{
    in_range, resolve_cli, validate, validate_camera_args, CameraArgs, CameraChoice, Cli, Commands,
    ModeChoice, MAX_CAM_RADIUS, MAX_FAR, MAX_FOV, MAX_PITCH, MIN_CAM_RADIUS, MIN_FOV, MIN_NEAR,
    MIN_PITCH,
};

fn b(x: f32) -> u32 {
    x.to_bits()
}

fn cli(fov: f32, near: f32, far: f32, bench: bool, command: Option<Commands>) -> Cli {
    Cli { fov: b(fov), near: b(near), far: b(far), bench, command }
}

fn camera(yaw: f32, pitch: f32, radius: f32) -> CameraArgs {
    CameraArgs { yaw: b(yaw), pitch: b(pitch), radius: b(radius) }
}

#[test]
fn bounds_are_the_documented_values() {
    assert_eq!(f32::from_bits(MIN_FOV), 0.0);
    assert_eq!(f32::from_bits(MAX_FOV), 100.0);
    assert_eq!(f32::from_bits(MIN_NEAR), 0.0);
    assert_eq!(f32::from_bits(MAX_FAR), 100.0);
    assert_eq!(f32::from_bits(MIN_PITCH), -180.0);
    assert_eq!(f32::from_bits(MAX_PITCH), 180.0);
    assert_eq!(f32::from_bits(MIN_CAM_RADIUS), 1.0);
    assert_eq!(f32::from_bits(MAX_CAM_RADIUS), 10.0);
}

#[test]
fn in_range_matches_float_range() {
    let vals = [
        f32::NEG_INFINITY, -200.0, -180.0, -1.0, -0.0, 0.0, 0.01, 1.0, 10.0, 100.0, 180.0,
        f32::INFINITY, f32::NAN,
    ];
    for v in vals {
        for lo in vals {
            for hi in vals {
                assert_eq!(in_range(b(v), b(lo), b(hi)), (lo..=hi).contains(&v), "{v} {lo} {hi}");
            }
        }
    }
}

#[test]
fn validate_reports_name_value_and_bounds() {
    assert!(validate("fov", b(40.0), MIN_FOV, MAX_FOV).is_ok());
    let e = validate("fov", b(120.0), MIN_FOV, MAX_FOV).unwrap_err();
    assert_eq!(e.name, "fov");
    assert_eq!(e.value, b(120.0));
    assert_eq!((e.min, e.max), (MIN_FOV, MAX_FOV));
}

#[test]
fn camera_args_check_pitch_then_radius() {
    assert!(validate_camera_args(&camera(0.0, 45.0, 2.0)).is_ok());
    let e = validate_camera_args(&camera(0.0, 200.0, 20.0)).unwrap_err();
    assert_eq!(e.name, "pitch");
    let e = validate_camera_args(&camera(0.0, 10.0, 0.5)).unwrap_err();
    assert_eq!(e.name, "radius");
    assert_eq!(e.value, b(0.5));
}

#[test]
fn defaults_give_interactive_default_camera() {
    let r = resolve_cli(&cli(40.0, 0.01, 10.0, false, None)).unwrap();
    assert_eq!(r, (ModeChoice::Interactive, CameraChoice::Default));
}

#[test]
fn bench_skips_every_check() {
    let r = resolve_cli(&cli(f32::NAN, 50.0, -1.0, true, None)).unwrap();
    assert_eq!(r, (ModeChoice::Benchmark, CameraChoice::Default));
}

#[test]
fn first_bad_argument_is_reported() {
    let e = resolve_cli(&cli(101.0, 200.0, 300.0, false, None)).unwrap_err();
    assert_eq!(e.name, "fov");
    let e = resolve_cli(&cli(40.0, 20.0, 10.0, false, None)).unwrap_err();
    assert_eq!(e.name, "near");
    assert_eq!((e.value, e.min, e.max), (b(20.0), MIN_NEAR, b(10.0)));
    let e = resolve_cli(&cli(40.0, 1.0, 150.0, false, None)).unwrap_err();
    assert_eq!(e.name, "far");
    assert_eq!((e.value, e.min, e.max), (b(150.0), b(1.0), MAX_FAR));
    let e = resolve_cli(&cli(40.0, -0.5, 10.0, false, None)).unwrap_err();
    assert_eq!(e.name, "near");
}

#[test]
fn subcommands_choose_mode_and_camera() {
    let cam = camera(90.0, 30.0, 3.0);
    let r = resolve_cli(&cli(40.0, 0.01, 10.0, false, Some(Commands::Turntable { speed: b(-2.0), camera: cam })))
        .unwrap();
    assert_eq!(r, (ModeChoice::Turntable { speed: b(-2.0) }, CameraChoice::Given(cam)));
    let r = resolve_cli(&cli(40.0, 0.01, 10.0, false, Some(Commands::Interactive { camera: cam })))
        .unwrap();
    assert_eq!(r, (ModeChoice::Interactive, CameraChoice::Given(cam)));
}

#[test]
fn subcommand_camera_is_checked() {
    let cam = camera(0.0, 0.0, 11.0);
    let e = resolve_cli(&cli(40.0, 0.01, 10.0, false, Some(Commands::Interactive { camera: cam })))
        .unwrap_err();
    assert_eq!(e.name, "radius");
    let e = resolve_cli(&cli(40.0, 0.01, 10.0, false, Some(Commands::Turntable { speed: 0, camera: camera(0.0, -181.0, 2.0) })))
        .unwrap_err();
    assert_eq!(e.name, "pitch");
}
