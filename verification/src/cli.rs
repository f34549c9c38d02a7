use vstd::prelude::*;

use crate::float_bits::{bits_is_nan, bits_less_than, float_key, float_key_of, lemma_float_key_order, NAN_KEY};

verus! {

// Every `f32` argument is held by its IEEE-754 bit pattern (`f32::to_bits`).

/// Smallest accepted field of view in degrees: `0.0`.
pub const MIN_FOV: u32 = 0x0000_0000;

/// Largest accepted field of view in degrees: `100.0`.
pub const MAX_FOV: u32 = 0x42C8_0000;

/// Smallest accepted near clipping plane distance: `0.0`.
pub const MIN_NEAR: u32 = 0x0000_0000;

/// Largest accepted far clipping plane distance: `100.0`.
pub const MAX_FAR: u32 = 0x42C8_0000;

/// Smallest accepted camera pitch in degrees: `-180.0`.
pub const MIN_PITCH: u32 = 0xC334_0000;

/// Largest accepted camera pitch in degrees: `180.0`.
pub const MAX_PITCH: u32 = 0x4334_0000;

/// Smallest distance from the camera to the origin: `1.0`.
pub const MIN_CAM_RADIUS: u32 = 0x3F80_0000;

/// Largest distance from the camera to the origin: `10.0`.
pub const MAX_CAM_RADIUS: u32 = 0x4120_0000;

/// The camera's starting place: yaw and pitch in degrees, and radius.
#[derive(Clone, Copy, Debug, PartialEq, Eq, Structural)]
pub struct CameraArgs {
    pub yaw: u32,
    pub pitch: u32,
    pub radius: u32,
}

/// The subcommands.
#[derive(Clone, Copy, Debug, PartialEq, Eq, Structural)]
pub enum Commands {
    /// Turn the model at `speed` radians per second.
    Turntable { speed: u32, camera: CameraArgs },
    /// Let the user move the camera.
    Interactive { camera: CameraArgs },
}

/// The command line: field of view in degrees, clipping plane distances,
/// the benchmark switch and the subcommand.
#[derive(Clone, Copy, Debug, PartialEq, Eq, Structural)]
pub struct Cli {
    pub fov: u32,
    pub near: u32,
    pub far: u32,
    pub bench: bool,
    pub command: Option<Commands>,
}

/// How the camera will be driven.
#[derive(Clone, Copy, Debug, PartialEq, Eq, Structural)]
pub enum ModeChoice {
    Interactive,
    /// A turntable turning at `speed` radians per second.
    Turntable { speed: u32 },
    Benchmark,
}

/// Where the camera starts.
#[derive(Clone, Copy, Debug, PartialEq, Eq, Structural)]
pub enum CameraChoice {
    /// The default place.
    Default,
    /// The place given on the command line.
    Given(CameraArgs),
}

/// A value outside its accepted range: the argument's name, its value and
/// the bounds, all by bit pattern.
#[derive(Debug)]
pub struct RangeError {
    pub name: String,
    pub value: u32,
    pub min: u32,
    pub max: u32,
}

/// `min <= val && val <= max` on the `f32` values of the bit patterns; false
/// when any of them is NaN.
pub open spec fn float_in_range(val: u32, min: u32, max: u32) -> bool {
    &&& !bits_is_nan(val)
    &&& !bits_is_nan(min)
    &&& !bits_is_nan(max)
    &&& !bits_less_than(val, min)
    &&& !bits_less_than(max, val)
}

/// Whether the `f32` value `val` lies in the closed range from `min` to `max`.
pub fn in_range(val: u32, min: u32, max: u32) -> (b: bool)
    ensures
        b == float_in_range(val, min, max),
{
    proof {
        lemma_float_key_order(val, min);
        lemma_float_key_order(max, val);
        lemma_float_key_order(min, val);
    }
    let kv = float_key(val);
    let kmin = float_key(min);
    let kmax = float_key(max);
    kv != NAN_KEY && kmin != NAN_KEY && kmax != NAN_KEY && kmin <= kv && kv <= kmax
}

/// What a range check gives: nothing, or the error naming the argument.
pub open spec fn range_check(name: Seq<char>, val: u32, min: u32, max: u32) -> Result<
    (),
    (Seq<char>, u32, u32, u32),
> {
    if float_in_range(val, min, max) {
        Ok(())
    } else {
        Err((name, val, min, max))
    }
}

/// The error's content, for comparison with `range_check`.
pub open spec fn error_view(e: RangeError) -> (Seq<char>, u32, u32, u32) {
    (e.name@, e.value, e.min, e.max)
}

/// Checks that the argument called `name` lies between `min` and `max`.
pub fn validate(name: &str, val: u32, min: u32, max: u32) -> (r: Result<(), RangeError>)
    ensures
        match r {
            Ok(()) => range_check(name@, val, min, max) == Ok::<(), (Seq<char>, u32, u32, u32)>(()),
            Err(e) => range_check(name@, val, min, max) == Err::<(), _>(error_view(e)),
        },
{
    if in_range(val, min, max) {
        Ok(())
    } else {
        Err(RangeError { name: name.to_owned(), value: val, min, max })
    }
}

/// What checking the camera arguments gives: the pitch, then the radius.
pub open spec fn camera_check(args: CameraArgs) -> Result<(), (Seq<char>, u32, u32, u32)> {
    match range_check("pitch"@, args.pitch, MIN_PITCH, MAX_PITCH) {
        Err(e) => Err(e),
        Ok(()) => range_check("radius"@, args.radius, MIN_CAM_RADIUS, MAX_CAM_RADIUS),
    }
}

/// Checks the pitch, then the radius, of the camera arguments.
pub fn validate_camera_args(args: &CameraArgs) -> (r: Result<(), RangeError>)
    ensures
        match r {
            Ok(()) => camera_check(*args) == Ok::<(), (Seq<char>, u32, u32, u32)>(()),
            Err(e) => camera_check(*args) == Err::<(), _>(error_view(e)),
        },
{
    let pitch = args.pitch;
    let radius = args.radius;
    validate("pitch", pitch, MIN_PITCH, MAX_PITCH)?;
    validate("radius", radius, MIN_CAM_RADIUS, MAX_CAM_RADIUS)?;
    Ok(())
}

/// What the command line selects. A benchmark skips every check and starts
/// from the default camera. Otherwise the field of view, the near plane and
/// the far plane are checked in that order, the near plane against the far
/// one and the far plane against the near one; a subcommand's camera
/// arguments are checked next and give the camera's start; without a
/// subcommand the mode is interactive from the default camera.
pub open spec fn resolution(cli: Cli) -> Result<(ModeChoice, CameraChoice), (Seq<char>, u32, u32, u32)> {
    if cli.bench {
        Ok((ModeChoice::Benchmark, CameraChoice::Default))
    } else if !float_in_range(cli.fov, MIN_FOV, MAX_FOV) {
        Err(("fov"@, cli.fov, MIN_FOV, MAX_FOV))
    } else if !float_in_range(cli.near, MIN_NEAR, cli.far) {
        Err(("near"@, cli.near, MIN_NEAR, cli.far))
    } else if !float_in_range(cli.far, cli.near, MAX_FAR) {
        Err(("far"@, cli.far, cli.near, MAX_FAR))
    } else {
        match cli.command {
            None => Ok((ModeChoice::Interactive, CameraChoice::Default)),
            Some(Commands::Turntable { speed, camera }) => match camera_check(camera) {
                Err(e) => Err(e),
                Ok(()) => Ok((ModeChoice::Turntable { speed }, CameraChoice::Given(camera))),
            },
            Some(Commands::Interactive { camera }) => match camera_check(camera) {
                Err(e) => Err(e),
                Ok(()) => Ok((ModeChoice::Interactive, CameraChoice::Given(camera))),
            },
        }
    }
}

/// Turns the command line into the mode and the camera's start, or the
/// first argument found out of range.
pub fn resolve_cli(cli: &Cli) -> (r: Result<(ModeChoice, CameraChoice), RangeError>)
    ensures
        match r {
            Ok(v) => resolution(*cli) == Ok::<_, (Seq<char>, u32, u32, u32)>(v),
            Err(e) => resolution(*cli) == Err::<(ModeChoice, CameraChoice), _>(error_view(e)),
        },
{
    let fov = cli.fov;
    let near = cli.near;
    let far = cli.far;

    if cli.bench {
        return Ok((ModeChoice::Benchmark, CameraChoice::Default));
    }

    validate("fov", fov, MIN_FOV, MAX_FOV)?;
    validate("near", near, MIN_NEAR, far)?;
    validate("far", far, near, MAX_FAR)?;

    match cli.command {
        None => Ok((ModeChoice::Interactive, CameraChoice::Default)),
        Some(Commands::Turntable { speed, camera }) => {
            validate_camera_args(&camera)?;
            Ok((ModeChoice::Turntable { speed }, CameraChoice::Given(camera)))
        },
        Some(Commands::Interactive { camera }) => {
            validate_camera_args(&camera)?;
            Ok((ModeChoice::Interactive, CameraChoice::Given(camera)))
        },
    }
}

/// A value is in range exactly when none of the three is NaN and, by the
/// float order of their keys, it lies between the bounds.
pub proof fn lemma_in_range_by_keys(val: u32, min: u32, max: u32)
    ensures
        float_in_range(val, min, max) <==> (!bits_is_nan(val) && !bits_is_nan(min) && !bits_is_nan(
            max,
        ) && float_key_of(min) <= float_key_of(val) && float_key_of(val) <= float_key_of(max)),
{
    lemma_float_key_order(val, min);
    lemma_float_key_order(max, val);
}

/// The camera arguments pass exactly when the pitch lies between
/// `MIN_PITCH` and `MAX_PITCH` and the radius between `MIN_CAM_RADIUS` and
/// `MAX_CAM_RADIUS`. A bad pitch is reported first, with the pitch bounds;
/// a bad radius with a good pitch is reported with the radius bounds.
pub proof fn lemma_camera_check_ranges(args: CameraArgs)
    ensures
        camera_check(args) is Ok <==> (float_in_range(args.pitch, MIN_PITCH, MAX_PITCH)
            && float_in_range(args.radius, MIN_CAM_RADIUS, MAX_CAM_RADIUS)),
        !float_in_range(args.pitch, MIN_PITCH, MAX_PITCH) ==> camera_check(args) == Err::<(), _>(
            ("pitch"@, args.pitch, MIN_PITCH, MAX_PITCH),
        ),
        float_in_range(args.pitch, MIN_PITCH, MAX_PITCH) && !float_in_range(
            args.radius,
            MIN_CAM_RADIUS,
            MAX_CAM_RADIUS,
        ) ==> camera_check(args) == Err::<(), _>(
            ("radius"@, args.radius, MIN_CAM_RADIUS, MAX_CAM_RADIUS),
        ),
{
}

/// The three projection checks all pass.
pub open spec fn projection_ok(cli: Cli) -> bool {
    &&& float_in_range(cli.fov, MIN_FOV, MAX_FOV)
    &&& float_in_range(cli.near, MIN_NEAR, cli.far)
    &&& float_in_range(cli.far, cli.near, MAX_FAR)
}

/// Resolving the command line: a benchmark always succeeds with the default
/// camera. Otherwise, whatever the subcommand, success means the field of
/// view, near and far planes are in range; the first of them out of range
/// is the error, with its own bounds. With all three in range the outcome
/// follows the subcommand: none gives interactive mode from the default
/// camera; a subcommand whose camera arguments pass gives its mode (the
/// turntable with its speed) from the given camera, and one whose camera
/// arguments fail gives their error.
pub proof fn lemma_resolution_checks(cli: Cli)
    ensures
        cli.bench ==> resolution(cli) == Ok::<_, (Seq<char>, u32, u32, u32)>(
            (ModeChoice::Benchmark, CameraChoice::Default),
        ),
        !cli.bench && resolution(cli) is Ok ==> projection_ok(cli),
        !cli.bench && !float_in_range(cli.fov, MIN_FOV, MAX_FOV) ==> resolution(cli)
            == Err::<(ModeChoice, CameraChoice), _>(("fov"@, cli.fov, MIN_FOV, MAX_FOV)),
        !cli.bench && float_in_range(cli.fov, MIN_FOV, MAX_FOV) && !float_in_range(
            cli.near,
            MIN_NEAR,
            cli.far,
        ) ==> resolution(cli) == Err::<(ModeChoice, CameraChoice), _>(
            ("near"@, cli.near, MIN_NEAR, cli.far),
        ),
        !cli.bench && float_in_range(cli.fov, MIN_FOV, MAX_FOV) && float_in_range(
            cli.near,
            MIN_NEAR,
            cli.far,
        ) && !float_in_range(cli.far, cli.near, MAX_FAR) ==> resolution(cli) == Err::<
            (ModeChoice, CameraChoice),
            _,
        >(("far"@, cli.far, cli.near, MAX_FAR)),
        !cli.bench && projection_ok(cli) && cli.command is None ==> resolution(cli) == Ok::<
            _,
            (Seq<char>, u32, u32, u32),
        >((ModeChoice::Interactive, CameraChoice::Default)),
        !cli.bench && projection_ok(cli) ==> (cli.command matches Some(
            Commands::Turntable { speed, camera },
        ) ==> resolution(cli) == (if camera_check(camera) is Ok {
            Ok::<_, (Seq<char>, u32, u32, u32)>(
                (ModeChoice::Turntable { speed }, CameraChoice::Given(camera)),
            )
        } else {
            Err(camera_check(camera)->Err_0)
        })),
        !cli.bench && projection_ok(cli) ==> (cli.command matches Some(
            Commands::Interactive { camera },
        ) ==> resolution(cli) == (if camera_check(camera) is Ok {
            Ok::<_, (Seq<char>, u32, u32, u32)>(
                (ModeChoice::Interactive, CameraChoice::Given(camera)),
            )
        } else {
            Err(camera_check(camera)->Err_0)
        })),
{
}

} // verus!
