//! The validated descriptor model, the total conversion from the raw
//! document (applying defaults and enforcing value bounds), and the driver
//! resolver that turns symbolic drive references into concrete parameter
//! actions.

use crate::raw::{
    RawDescriptor, RawDrive, RawDriver, RawDriverOption, RawShapeKeyCommon, RawShapeKeyDrive,
    RawShapeKeyGroup, RawShapeKeyOption, RawShapeKeySwitch,
};
use crate::values::{NormalizedValue, PositiveIndex};
use vstd::prelude::*;

verus! {

/// A whole validated descriptor.
#[derive(Debug)]
pub struct Descriptor {
    /// Avatar name.
    pub name: String,
    /// Shape key switches.
    pub shape_switches: Vec<ShapeKeySwitch>,
    /// Shape key groups.
    pub shape_groups: Vec<ShapeKeyGroup>,
    /// Parameter driver layers.
    pub drivers: Vec<Driver>,
}

/// The common part of shape key layers.
#[derive(Debug)]
pub struct ShapeKeyCommon {
    /// Name used for both the layer and its parameter.
    pub name: String,
    /// Name of the referenced mesh-bearing object.
    pub mesh: String,
    /// Whether this layer suppresses the built-in eyelid animation.
    pub prevent_eyelids: bool,
    /// Whether this layer suppresses the built-in mouth animation.
    pub prevent_mouth: bool,
}

/// A shape key switch layer.
#[derive(Debug)]
pub struct ShapeKeySwitch {
    pub common: ShapeKeyCommon,
    /// Target shape key.
    pub shape: String,
    /// The value driven while enabled.
    pub enabled_value: NormalizedValue,
    /// The value driven while disabled.
    pub disabled_value: NormalizedValue,
}

/// A group of shape key animations.
#[derive(Debug)]
pub struct ShapeKeyGroup {
    pub common: ShapeKeyCommon,
    /// Default shape key values, applied in the group's disabled state.
    pub defaults: Vec<ShapeKeyDrive>,
    /// Group options.
    pub options: Vec<ShapeKeyOption>,
}

/// An option in a group.
#[derive(Debug)]
pub struct ShapeKeyOption {
    /// Option label.
    pub label: String,
    /// Explicit state index, if given; otherwise the 1-based option position
    /// is used.
    pub index: Option<PositiveIndex>,
    /// Shape keys driven while this option is selected.
    pub shapes: Vec<ShapeKeyDrive>,
}

/// One driven shape key.
#[derive(Debug)]
pub struct ShapeKeyDrive {
    /// Shape key name.
    pub shape: String,
    /// Shape key value.
    pub value: NormalizedValue,
}

/// A parameter driver layer.
#[derive(Debug)]
pub struct Driver {
    /// Layer name.
    pub name: String,
    /// Driver options.
    pub options: Vec<DriverOption>,
}

/// An option of a driver.
#[derive(Debug)]
pub struct DriverOption {
    /// Option label.
    pub label: String,
    pub drives: Vec<Drive>,
}

/// A single symbolic drive.
#[derive(Debug)]
pub enum Drive {
    /// Sets a boolean switch on or off.
    Switch { name: String, enabled: bool },
    /// Sets a group to the option with the given label.
    Group { name: String, label: String },
}

/// A resolved driver layer.
#[derive(Debug)]
pub struct ResolvedDriver {
    pub name: String,
    pub options: Vec<ResolvedDriverOption>,
}

/// A resolved option of a driver.
#[derive(Debug)]
pub struct ResolvedDriverOption {
    pub label: String,
    pub drives: Vec<ResolvedDrive>,
}

/// A resolved drive: a concrete parameter action.
#[derive(Debug)]
pub enum ResolvedDrive {
    Integer { name: String, index: usize },
    Bool { name: String, enabled: bool },
}

// ---------------------------------------------------------------------------
// Views: the mathematical shape of the model, with sequences for vectors.
// ---------------------------------------------------------------------------

/// The view function of a group option.
pub open spec fn option_view_fn() -> spec_fn(ShapeKeyOption) -> ShapeKeyOptionView {
    |o: ShapeKeyOption| o@
}

/// The view function of a group.
pub open spec fn group_view_fn() -> spec_fn(ShapeKeyGroup) -> ShapeKeyGroupView {
    |g: ShapeKeyGroup| g@
}

/// The view function of a driver option.
pub open spec fn driver_option_view_fn() -> spec_fn(DriverOption) -> DriverOptionView {
    |o: DriverOption| o@
}

/// The view function of a driver.
pub open spec fn driver_view_fn() -> spec_fn(Driver) -> DriverView {
    |d: Driver| d@
}

/// The view function of a resolved driver option.
pub open spec fn resolved_option_view_fn() -> spec_fn(
    ResolvedDriverOption,
) -> ResolvedDriverOptionView {
    |o: ResolvedDriverOption| o@
}

/// The view of a group option.
pub struct ShapeKeyOptionView {
    pub label: String,
    pub index: Option<PositiveIndex>,
    pub shapes: Seq<ShapeKeyDrive>,
}

impl View for ShapeKeyOption {
    type V = ShapeKeyOptionView;

    open spec fn view(&self) -> ShapeKeyOptionView {
        ShapeKeyOptionView { label: self.label, index: self.index, shapes: self.shapes@ }
    }
}

/// The view of a group.
pub struct ShapeKeyGroupView {
    pub common: ShapeKeyCommon,
    pub defaults: Seq<ShapeKeyDrive>,
    pub options: Seq<ShapeKeyOptionView>,
}

impl View for ShapeKeyGroup {
    type V = ShapeKeyGroupView;

    open spec fn view(&self) -> ShapeKeyGroupView {
        ShapeKeyGroupView {
            common: self.common,
            defaults: self.defaults@,
            options: self.options@.map_values(option_view_fn()),
        }
    }
}

/// The view of a driver option.
pub struct DriverOptionView {
    pub label: String,
    pub drives: Seq<Drive>,
}

impl View for DriverOption {
    type V = DriverOptionView;

    open spec fn view(&self) -> DriverOptionView {
        DriverOptionView { label: self.label, drives: self.drives@ }
    }
}

/// The view of a driver.
pub struct DriverView {
    pub name: String,
    pub options: Seq<DriverOptionView>,
}

impl View for Driver {
    type V = DriverView;

    open spec fn view(&self) -> DriverView {
        DriverView { name: self.name, options: self.options@.map_values(driver_option_view_fn()) }
    }
}

/// The view of a whole descriptor.
pub struct DescriptorView {
    pub name: String,
    pub shape_switches: Seq<ShapeKeySwitch>,
    pub shape_groups: Seq<ShapeKeyGroupView>,
    pub drivers: Seq<DriverView>,
}

impl View for Descriptor {
    type V = DescriptorView;

    open spec fn view(&self) -> DescriptorView {
        DescriptorView {
            name: self.name,
            shape_switches: self.shape_switches@,
            shape_groups: self.shape_groups@.map_values(group_view_fn()),
            drivers: self.drivers@.map_values(driver_view_fn()),
        }
    }
}

/// The view of a resolved driver option.
pub struct ResolvedDriverOptionView {
    pub label: String,
    pub drives: Seq<ResolvedDrive>,
}

impl View for ResolvedDriverOption {
    type V = ResolvedDriverOptionView;

    open spec fn view(&self) -> ResolvedDriverOptionView {
        ResolvedDriverOptionView { label: self.label, drives: self.drives@ }
    }
}

/// The view of a resolved driver.
pub struct ResolvedDriverView {
    pub name: String,
    pub options: Seq<ResolvedDriverOptionView>,
}

impl View for ResolvedDriver {
    type V = ResolvedDriverView;

    open spec fn view(&self) -> ResolvedDriverView {
        ResolvedDriverView {
            name: self.name,
            options: self.options@.map_values(resolved_option_view_fn()),
        }
    }
}

// ---------------------------------------------------------------------------
// Conversion from the raw document: applies every default, enforces value
// bounds through the wrapper constructors, and fails on the first rejected
// value. No partial descriptor is ever produced.
// ---------------------------------------------------------------------------

/// A value-domain error raised while converting the raw document.
#[derive(Debug, Clone)]
pub enum ConvertError {
    /// A switch's enabled value lies outside [0, 1].
    EnabledValueOutOfRange(i64),
    /// A switch's disabled value lies outside [0, 1].
    DisabledValueOutOfRange(i64),
    /// A drive's value lies outside [0, 1].
    DriveValueOutOfRange(i64),
    /// An option carries an explicit index of zero; the label names it.
    ZeroIndex(String),
}

impl ConvertError {
    /// A short description of the error.
    pub fn message(&self) -> (r: &'static str)
        ensures
            r@ == self.spec_message(),
    {
        match self {
            ConvertError::EnabledValueOutOfRange(_) => "enabled_value out of range",
            ConvertError::DisabledValueOutOfRange(_) => "disabled_value out of range",
            ConvertError::DriveValueOutOfRange(_) => "Drive value out of range",
            ConvertError::ZeroIndex(_) => "Index must be non-zero",
        }
    }

    /// The description `message` returns.
    pub open spec fn spec_message(&self) -> Seq<char> {
        match self {
            ConvertError::EnabledValueOutOfRange(_) => "enabled_value out of range"@,
            ConvertError::DisabledValueOutOfRange(_) => "disabled_value out of range"@,
            ConvertError::DriveValueOutOfRange(_) => "Drive value out of range"@,
            ConvertError::ZeroIndex(_) => "Index must be non-zero"@,
        }
    }
}

/// Converts a sequence element-wise, left to right, returning the first
/// error if any element is rejected.
pub open spec fn spec_convert_seq<A, B>(
    s: Seq<A>,
    f: spec_fn(A) -> Result<B, ConvertError>,
) -> Result<Seq<B>, ConvertError>
    decreases s.len(),
{
    if s.len() == 0 {
        Result::Ok(Seq::empty())
    } else {
        match f(s[0]) {
            Result::Err(e) => Result::Err(e),
            Result::Ok(b) => match spec_convert_seq(s.drop_first(), f) {
                Result::Err(e) => Result::Err(e),
                Result::Ok(rest) => Result::Ok(seq![b] + rest),
            },
        }
    }
}

/// When every element converts, the sequence conversion succeeds with the
/// element results in order.
pub proof fn lemma_convert_seq_ok<A, B>(
    s: Seq<A>,
    f: spec_fn(A) -> Result<B, ConvertError>,
    out: Seq<B>,
)
    requires
        out.len() == s.len(),
        forall|j: int| 0 <= j < s.len() ==> f(s[j]) == Result::<B, ConvertError>::Ok(out[j]),
    ensures
        spec_convert_seq(s, f) == Result::<Seq<B>, ConvertError>::Ok(out),
    decreases s.len(),
{
    if s.len() == 0 {
        assert(out =~= Seq::<B>::empty());
    } else {
        assert(f(s[0]) == Result::<B, ConvertError>::Ok(out[0]));
        assert(forall|j: int|
            0 <= j < s.drop_first().len() ==> f(s.drop_first()[j]) == Result::<
                B,
                ConvertError,
            >::Ok(out.drop_first()[j]));
        lemma_convert_seq_ok(s.drop_first(), f, out.drop_first());
        assert(seq![out[0]] + out.drop_first() =~= out);
    }
}

/// When some element is rejected and everything before it converts, the
/// sequence conversion fails with that first error.
pub proof fn lemma_convert_seq_err<A, B>(
    s: Seq<A>,
    f: spec_fn(A) -> Result<B, ConvertError>,
    i: int,
)
    requires
        0 <= i < s.len(),
        f(s[i]) is Err,
        forall|j: int| 0 <= j < i ==> f(#[trigger] s[j]) is Ok,
    ensures
        spec_convert_seq(s, f) == Result::<Seq<B>, ConvertError>::Err(f(s[i])->Err_0),
    decreases s.len(),
{
    if i == 0 {
    } else {
        assert(f(s[0]) is Ok);
        assert(forall|j: int| 0 <= j < i - 1 ==> f(#[trigger] s.drop_first()[j]) is Ok);
        lemma_convert_seq_err(s.drop_first(), f, i - 1);
    }
}

/// The converted common part: absent flags default to false.
pub open spec fn spec_convert_common(raw: RawShapeKeyCommon) -> ShapeKeyCommon {
    ShapeKeyCommon {
        name: raw.name,
        mesh: raw.mesh,
        prevent_eyelids: match raw.prevent_eyelids {
            Option::Some(b) => b,
            Option::None => false,
        },
        prevent_mouth: match raw.prevent_mouth {
            Option::Some(b) => b,
            Option::None => false,
        },
    }
}

/// The converted switch: the enabled value defaults to 1.0, the disabled
/// value to 0.0; each must lie in [0, 1].
pub open spec fn spec_convert_switch(raw: RawShapeKeySwitch) -> Result<
    ShapeKeySwitch,
    ConvertError,
> {
    let ev: int = match raw.enabled_value {
        Option::Some(v) => v as int,
        Option::None => 1000,
    };
    let dv: int = match raw.disabled_value {
        Option::Some(v) => v as int,
        Option::None => 0,
    };
    if !(0 <= ev <= 1000) {
        Result::Err(ConvertError::EnabledValueOutOfRange(ev as i64))
    } else if !(0 <= dv <= 1000) {
        Result::Err(ConvertError::DisabledValueOutOfRange(dv as i64))
    } else {
        Result::Ok(
            ShapeKeySwitch {
                common: spec_convert_common(raw.common),
                shape: raw.shape,
                enabled_value: NormalizedValue::from_permille(ev as nat),
                disabled_value: NormalizedValue::from_permille(dv as nat),
            },
        )
    }
}

/// The converted drive: a bare shape name drives to 1.0; a record without a
/// value drives to the enclosing default; the value must lie in [0, 1].
pub open spec fn spec_convert_drive(raw: RawShapeKeyDrive, default: int) -> Result<
    ShapeKeyDrive,
    ConvertError,
> {
    match raw {
        RawShapeKeyDrive::Simple(shape) => Result::Ok(
            ShapeKeyDrive { shape, value: NormalizedValue::from_permille(1000) },
        ),
        RawShapeKeyDrive::Complex { shape, value } => {
            let v: int = match value {
                Option::Some(v) => v as int,
                Option::None => default,
            };
            if !(0 <= v <= 1000) {
                Result::Err(ConvertError::DriveValueOutOfRange(v as i64))
            } else {
                Result::Ok(ShapeKeyDrive { shape, value: NormalizedValue::from_permille(v as nat) })
            }
        },
    }
}

/// The drive-conversion function with a fixed default value.
pub open spec fn spec_convert_drive_fn(default: int) -> spec_fn(RawShapeKeyDrive) -> Result<
    ShapeKeyDrive,
    ConvertError,
> {
    |d: RawShapeKeyDrive| spec_convert_drive(d, default)
}

/// The converted option: a bare label (and a record without drives) implies
/// one drive of the like-named shape to 1.0; an explicit index must be
/// non-zero; the option's value, defaulting to 1.0, is the default for its
/// drives.
pub open spec fn spec_convert_option(raw: RawShapeKeyOption) -> Result<
    ShapeKeyOptionView,
    ConvertError,
> {
    match raw {
        RawShapeKeyOption::Simple(label) => Result::Ok(
            ShapeKeyOptionView {
                label: label,
                index: Option::None,
                shapes: seq![
                    ShapeKeyDrive { shape: label, value: NormalizedValue::from_permille(1000) }
                ],
            },
        ),
        RawShapeKeyOption::Complex { label, value, index, shapes } => {
            let default: int = match value {
                Option::Some(v) => v as int,
                Option::None => 1000,
            };
            if index matches Option::Some(i) && i == 0 {
                Result::Err(ConvertError::ZeroIndex(label))
            } else {
                let vindex = match index {
                    Option::Some(i) => Option::Some(PositiveIndex::from_value(i as nat)),
                    Option::None => Option::None,
                };
                match shapes {
                    Option::Some(sv) => match spec_convert_seq(
                        sv@,
                        spec_convert_drive_fn(default),
                    ) {
                        Result::Err(e) => Result::Err(e),
                        Result::Ok(ds) => Result::Ok(
                            ShapeKeyOptionView { label, index: vindex, shapes: ds },
                        ),
                    },
                    Option::None => Result::Ok(
                        ShapeKeyOptionView {
                            label: label,
                            index: vindex,
                            shapes: seq![
                                ShapeKeyDrive {
                                    shape: label,
                                    value: NormalizedValue::from_permille(1000),
                                }
                            ],
                        },
                    ),
                }
            }
        },
    }
}

/// The option-conversion function.
pub open spec fn spec_convert_option_fn() -> spec_fn(RawShapeKeyOption) -> Result<
    ShapeKeyOptionView,
    ConvertError,
> {
    |o: RawShapeKeyOption| spec_convert_option(o)
}

/// The converted group: default drives fall back to 1.0; absent lists are
/// empty.
pub open spec fn spec_convert_group(raw: RawShapeKeyGroup) -> Result<
    ShapeKeyGroupView,
    ConvertError,
> {
    let defaults_seq: Seq<RawShapeKeyDrive> = match raw.defaults {
        Option::Some(v) => v@,
        Option::None => Seq::empty(),
    };
    let options_seq: Seq<RawShapeKeyOption> = match raw.options {
        Option::Some(v) => v@,
        Option::None => Seq::empty(),
    };
    match spec_convert_seq(defaults_seq, spec_convert_drive_fn(1000)) {
        Result::Err(e) => Result::Err(e),
        Result::Ok(defaults) => match spec_convert_seq(options_seq, spec_convert_option_fn()) {
            Result::Err(e) => Result::Err(e),
            Result::Ok(options) => Result::Ok(
                ShapeKeyGroupView { common: spec_convert_common(raw.common), defaults, options },
            ),
        },
    }
}

/// The switch-conversion function.
pub open spec fn spec_convert_switch_fn() -> spec_fn(RawShapeKeySwitch) -> Result<
    ShapeKeySwitch,
    ConvertError,
> {
    |s: RawShapeKeySwitch| spec_convert_switch(s)
}

/// The group-conversion function.
pub open spec fn spec_convert_group_fn() -> spec_fn(RawShapeKeyGroup) -> Result<
    ShapeKeyGroupView,
    ConvertError,
> {
    |g: RawShapeKeyGroup| spec_convert_group(g)
}

/// The raw-drive conversion function.
pub open spec fn raw_drive_conv_fn() -> spec_fn(RawDrive) -> Drive {
    |d: RawDrive| spec_convert_raw_drive(d)
}

/// The driver-option conversion function.
pub open spec fn raw_driver_option_conv_fn() -> spec_fn(RawDriverOption) -> DriverOptionView {
    |o: RawDriverOption| spec_convert_driver_option(o)
}

/// The driver conversion function.
pub open spec fn raw_driver_conv_fn() -> spec_fn(RawDriver) -> DriverView {
    |d: RawDriver| spec_convert_driver(d)
}

/// The converted symbolic drive: a one-for-one copy.
pub open spec fn spec_convert_raw_drive(raw: RawDrive) -> Drive {
    match raw {
        RawDrive::Switch { name, enabled } => Drive::Switch { name, enabled },
        RawDrive::Group { name, label } => Drive::Group { name, label },
    }
}

/// The converted driver option: drives copied one for one.
pub open spec fn spec_convert_driver_option(raw: RawDriverOption) -> DriverOptionView {
    DriverOptionView {
        label: raw.label,
        drives: raw.drives@.map_values(raw_drive_conv_fn()),
    }
}

/// The converted driver: options copied one for one. Driver conversion
/// cannot fail; its references are checked later by validation.
pub open spec fn spec_convert_driver(raw: RawDriver) -> DriverView {
    DriverView {
        name: raw.name,
        options: raw.options@.map_values(raw_driver_option_conv_fn()),
    }
}

/// The converted descriptor: switches, then groups, then drivers; the first
/// rejected value aborts the whole conversion.
pub open spec fn spec_convert_descriptor(raw: RawDescriptor) -> Result<
    DescriptorView,
    ConvertError,
> {
    let switches_seq: Seq<RawShapeKeySwitch> = match raw.shape_switches {
        Option::Some(v) => v@,
        Option::None => Seq::empty(),
    };
    let groups_seq: Seq<RawShapeKeyGroup> = match raw.shape_groups {
        Option::Some(v) => v@,
        Option::None => Seq::empty(),
    };
    let drivers_seq: Seq<RawDriver> = match raw.drivers {
        Option::Some(v) => v@,
        Option::None => Seq::empty(),
    };
    match spec_convert_seq(switches_seq, spec_convert_switch_fn()) {
        Result::Err(e) => Result::Err(e),
        Result::Ok(switches) => match spec_convert_seq(groups_seq, spec_convert_group_fn()) {
            Result::Err(e) => Result::Err(e),
            Result::Ok(groups) => Result::Ok(
                DescriptorView {
                    name: raw.name,
                    shape_switches: switches,
                    shape_groups: groups,
                    drivers: drivers_seq.map_values(raw_driver_conv_fn()),
                },
            ),
        },
    }
}


// ---------------------------------------------------------------------------
// Executable converters.
// ---------------------------------------------------------------------------

impl ShapeKeyCommon {
    /// Converts the common part, defaulting absent flags to false.
    pub fn from_raw(raw: &RawShapeKeyCommon) -> (r: ShapeKeyCommon)
        ensures
            r == spec_convert_common(*raw),
    {
        ShapeKeyCommon {
            name: raw.name.clone(),
            mesh: raw.mesh.clone(),
            prevent_eyelids: match raw.prevent_eyelids {
                Option::Some(b) => b,
                Option::None => false,
            },
            prevent_mouth: match raw.prevent_mouth {
                Option::Some(b) => b,
                Option::None => false,
            },
        }
    }
}

impl ShapeKeyDrive {
    /// The drive implied by a bare label: the like-named shape, driven to
    /// 1.0.
    pub fn like_named(label: &String) -> (r: ShapeKeyDrive)
        ensures
            r == (ShapeKeyDrive {
                shape: *label,
                value: NormalizedValue::from_permille(1000),
            }),
    {
        let value = match NormalizedValue::new(1000) {
            Option::Some(v) => v,
            Option::None => unreached(),
        };
        ShapeKeyDrive { shape: label.clone(), value }
    }

    /// Converts one drive, falling back to the given per-mille default.
    pub fn from_raw(raw: &RawShapeKeyDrive, default: i64) -> (r: Result<
        ShapeKeyDrive,
        ConvertError,
    >)
        ensures
            r == spec_convert_drive(*raw, default as int),
    {
        match raw {
            RawShapeKeyDrive::Simple(shape) => Result::Ok(ShapeKeyDrive::like_named(shape)),
            RawShapeKeyDrive::Complex { shape, value } => {
                let v: i64 = match value {
                    Option::Some(v) => *v,
                    Option::None => default,
                };
                match NormalizedValue::new(v) {
                    Option::Some(val) => Result::Ok(
                        ShapeKeyDrive { shape: shape.clone(), value: val },
                    ),
                    Option::None => Result::Err(ConvertError::DriveValueOutOfRange(v)),
                }
            },
        }
    }
}

/// Converts a list of drives, stopping at the first rejected value.
#[verifier::loop_isolation(false)]
fn convert_drives(v: &Vec<RawShapeKeyDrive>, default: i64) -> (r: Result<
    Vec<ShapeKeyDrive>,
    ConvertError,
>)
    ensures
        match r {
            Result::Ok(out) => spec_convert_seq(v@, spec_convert_drive_fn(default as int))
                == Result::<Seq<ShapeKeyDrive>, ConvertError>::Ok(out@),
            Result::Err(e) => spec_convert_seq(v@, spec_convert_drive_fn(default as int))
                == Result::<Seq<ShapeKeyDrive>, ConvertError>::Err(e),
        },
{
    let ghost f = spec_convert_drive_fn(default as int);
    let mut out: Vec<ShapeKeyDrive> = Vec::new();
    let n = v.len();
    let mut i: usize = 0;
    while i < n
        invariant
            i <= n,
            out@.len() == i,
            forall|j: int| 0 <= j < i ==> f(v@[j]) == Result::<ShapeKeyDrive, ConvertError>::Ok(
                out@[j],
            ),
        decreases n - i,
    {
        match ShapeKeyDrive::from_raw(&v[i], default) {
            Result::Ok(d) => {
                out.push(d);
            },
            Result::Err(e) => {
                proof {
                    lemma_convert_seq_err(v@, f, i as int);
                }
                return Result::Err(e);
            },
        }
        i = i + 1;
    }
    proof {
        lemma_convert_seq_ok(v@, f, out@);
    }
    Result::Ok(out)
}

impl ShapeKeyOption {
    /// Converts one option: rejects a zero index, applies the implied drive
    /// of a bare label, and converts explicit drives under the option's
    /// default value.
    pub fn from_raw(raw: &RawShapeKeyOption) -> (r: Result<ShapeKeyOption, ConvertError>)
        ensures
            match r {
                Result::Ok(o) => spec_convert_option(*raw) == Result::<
                    ShapeKeyOptionView,
                    ConvertError,
                >::Ok(o@),
                Result::Err(e) => spec_convert_option(*raw) == Result::<
                    ShapeKeyOptionView,
                    ConvertError,
                >::Err(e),
            },
    {
        match raw {
            RawShapeKeyOption::Simple(label) => {
                let shapes = vec![ShapeKeyDrive::like_named(label)];
                let o = ShapeKeyOption { label: label.clone(), index: Option::None, shapes };
                proof {
                    assert(o@.shapes =~= seq![
                        ShapeKeyDrive {
                            shape: *label,
                            value: NormalizedValue::from_permille(1000),
                        }
                    ]);
                }
                Result::Ok(o)
            },
            RawShapeKeyOption::Complex { label, value, index, shapes } => {
                let default: i64 = match value {
                    Option::Some(v) => *v,
                    Option::None => 1000,
                };
                let vindex = match index {
                    Option::Some(i) => match PositiveIndex::new(*i) {
                        Option::Some(pi) => Option::Some(pi),
                        Option::None => {
                            return Result::Err(ConvertError::ZeroIndex(label.clone()));
                        },
                    },
                    Option::None => Option::None,
                };
                let shapes_vec = match shapes {
                    Option::Some(sv) => match convert_drives(sv, default) {
                        Result::Ok(ds) => ds,
                        Result::Err(e) => {
                            return Result::Err(e);
                        },
                    },
                    Option::None => vec![ShapeKeyDrive::like_named(label)],
                };
                let o = ShapeKeyOption { label: label.clone(), index: vindex, shapes: shapes_vec };
                proof {
                    if shapes is None {
                        assert(o@.shapes =~= seq![
                            ShapeKeyDrive {
                                shape: *label,
                                value: NormalizedValue::from_permille(1000),
                            }
                        ]);
                    }
                }
                Result::Ok(o)
            },
        }
    }
}

/// Converts a list of options, stopping at the first rejected value.
#[verifier::loop_isolation(false)]
fn convert_options(v: &Vec<RawShapeKeyOption>) -> (r: Result<Vec<ShapeKeyOption>, ConvertError>)
    ensures
        match r {
            Result::Ok(out) => spec_convert_seq(v@, spec_convert_option_fn()) == Result::<
                Seq<ShapeKeyOptionView>,
                ConvertError,
            >::Ok(out@.map_values(option_view_fn())),
            Result::Err(e) => spec_convert_seq(v@, spec_convert_option_fn()) == Result::<
                Seq<ShapeKeyOptionView>,
                ConvertError,
            >::Err(e),
        },
{
    let ghost f = spec_convert_option_fn();
    let mut out: Vec<ShapeKeyOption> = Vec::new();
    let n = v.len();
    let mut i: usize = 0;
    while i < n
        invariant
            i <= n,
            out@.len() == i,
            forall|j: int| 0 <= j < i ==> f(v@[j]) == Result::<
                ShapeKeyOptionView,
                ConvertError,
            >::Ok(out@[j]@),
        decreases n - i,
    {
        match ShapeKeyOption::from_raw(&v[i]) {
            Result::Ok(o) => {
                out.push(o);
            },
            Result::Err(e) => {
                proof {
                    lemma_convert_seq_err(v@, f, i as int);
                }
                return Result::Err(e);
            },
        }
        i = i + 1;
    }
    proof {
        lemma_convert_seq_ok(v@, f, out@.map_values(option_view_fn()));
    }
    Result::Ok(out)
}

impl ShapeKeySwitch {
    /// Converts one switch: the enabled value defaults to 1.0, the disabled
    /// value to 0.0, and each must lie in [0, 1].
    pub fn from_raw(raw: &RawShapeKeySwitch) -> (r: Result<ShapeKeySwitch, ConvertError>)
        ensures
            r == spec_convert_switch(*raw),
    {
        let ev: i64 = match raw.enabled_value {
            Option::Some(v) => v,
            Option::None => 1000,
        };
        let enabled_value = match NormalizedValue::new(ev) {
            Option::Some(v) => v,
            Option::None => {
                return Result::Err(ConvertError::EnabledValueOutOfRange(ev));
            },
        };
        let dv: i64 = match raw.disabled_value {
            Option::Some(v) => v,
            Option::None => 0,
        };
        let disabled_value = match NormalizedValue::new(dv) {
            Option::Some(v) => v,
            Option::None => {
                return Result::Err(ConvertError::DisabledValueOutOfRange(dv));
            },
        };
        Result::Ok(
            ShapeKeySwitch {
                common: ShapeKeyCommon::from_raw(&raw.common),
                shape: raw.shape.clone(),
                enabled_value,
                disabled_value,
            },
        )
    }
}

impl ShapeKeyGroup {
    /// Converts one group: default drives fall back to 1.0, absent lists are
    /// empty.
    pub fn from_raw(raw: &RawShapeKeyGroup) -> (r: Result<ShapeKeyGroup, ConvertError>)
        ensures
            match r {
                Result::Ok(g) => spec_convert_group(*raw) == Result::<
                    ShapeKeyGroupView,
                    ConvertError,
                >::Ok(g@),
                Result::Err(e) => spec_convert_group(*raw) == Result::<
                    ShapeKeyGroupView,
                    ConvertError,
                >::Err(e),
            },
    {
        let defaults = match &raw.defaults {
            Option::Some(v) => match convert_drives(v, 1000) {
                Result::Ok(ds) => ds,
                Result::Err(e) => {
                    return Result::Err(e);
                },
            },
            Option::None => Vec::new(),
        };
        let options = match &raw.options {
            Option::Some(v) => match convert_options(v) {
                Result::Ok(os) => os,
                Result::Err(e) => {
                    return Result::Err(e);
                },
            },
            Option::None => Vec::new(),
        };
        let g = ShapeKeyGroup { common: ShapeKeyCommon::from_raw(&raw.common), defaults, options };
        proof {
            assert(Seq::<ShapeKeyOption>::empty().map_values(option_view_fn())
                =~= Seq::<ShapeKeyOptionView>::empty());
        }
        Result::Ok(g)
    }
}

impl Drive {
    /// Converts one symbolic drive, one for one.
    pub fn from_raw(raw: &RawDrive) -> (r: Drive)
        ensures
            r == spec_convert_raw_drive(*raw),
    {
        match raw {
            RawDrive::Switch { name, enabled } => Drive::Switch {
                name: name.clone(),
                enabled: *enabled,
            },
            RawDrive::Group { name, label } => Drive::Group {
                name: name.clone(),
                label: label.clone(),
            },
        }
    }
}

impl DriverOption {
    /// Converts one driver option, one for one.
    #[verifier::loop_isolation(false)]
    pub fn from_raw(raw: &RawDriverOption) -> (r: DriverOption)
        ensures
            r@ == spec_convert_driver_option(*raw),
    {
        let mut drives: Vec<Drive> = Vec::new();
        let n = raw.drives.len();
        let mut i: usize = 0;
        while i < n
            invariant
                i <= n,
                drives@.len() == i,
                forall|j: int| 0 <= j < i ==> drives@[j] == spec_convert_raw_drive(raw.drives@[j]),
            decreases n - i,
        {
            drives.push(Drive::from_raw(&raw.drives[i]));
            i = i + 1;
        }
        let r = DriverOption { label: raw.label.clone(), drives };
        proof {
            assert(r@.drives =~= raw.drives@.map_values(raw_drive_conv_fn()));
        }
        r
    }
}

impl Driver {
    /// Converts one driver, one for one; its references are checked later by
    /// validation.
    #[verifier::loop_isolation(false)]
    pub fn from_raw(raw: &RawDriver) -> (r: Driver)
        ensures
            r@ == spec_convert_driver(*raw),
    {
        let mut options: Vec<DriverOption> = Vec::new();
        let n = raw.options.len();
        let mut i: usize = 0;
        while i < n
            invariant
                i <= n,
                options@.len() == i,
                forall|j: int| 0 <= j < i ==> options@[j]@ == spec_convert_driver_option(
                    raw.options@[j],
                ),
            decreases n - i,
        {
            options.push(DriverOption::from_raw(&raw.options[i]));
            i = i + 1;
        }
        let r = Driver { name: raw.name.clone(), options };
        proof {
            assert(r@.options =~= raw.options@.map_values(raw_driver_option_conv_fn()));
        }
        r
    }
}

impl Descriptor {
    /// Converts a whole raw document: switches, then groups, then drivers;
    /// the first rejected value aborts the conversion and no partial
    /// descriptor is produced.
    #[verifier::loop_isolation(false)]
    pub fn from_raw(raw: &RawDescriptor) -> (r: Result<Descriptor, ConvertError>)
        ensures
            match r {
                Result::Ok(d) => spec_convert_descriptor(*raw) == Result::<
                    DescriptorView,
                    ConvertError,
                >::Ok(d@),
                Result::Err(e) => spec_convert_descriptor(*raw) == Result::<
                    DescriptorView,
                    ConvertError,
                >::Err(e),
            },
    {
        let ghost fsw = spec_convert_switch_fn();
        let shape_switches = match &raw.shape_switches {
            Option::Some(v) => {
                let mut out: Vec<ShapeKeySwitch> = Vec::new();
                let n = v.len();
                let mut i: usize = 0;
                while i < n
                    invariant
                        i <= n,
                        out@.len() == i,
                        forall|j: int| 0 <= j < i ==> fsw(v@[j]) == Result::<
                            ShapeKeySwitch,
                            ConvertError,
                        >::Ok(out@[j]),
                    decreases n - i,
                {
                    match ShapeKeySwitch::from_raw(&v[i]) {
                        Result::Ok(s) => {
                            out.push(s);
                        },
                        Result::Err(e) => {
                            proof {
                                lemma_convert_seq_err(v@, fsw, i as int);
                            }
                            return Result::Err(e);
                        },
                    }
                    i = i + 1;
                }
                proof {
                    lemma_convert_seq_ok(v@, fsw, out@);
                }
                out
            },
            Option::None => Vec::new(),
        };
        let ghost fg = spec_convert_group_fn();
        let shape_groups = match &raw.shape_groups {
            Option::Some(v) => {
                let mut out: Vec<ShapeKeyGroup> = Vec::new();
                let n = v.len();
                let mut i: usize = 0;
                while i < n
                    invariant
                        i <= n,
                        out@.len() == i,
                        forall|j: int| 0 <= j < i ==> fg(v@[j]) == Result::<
                            ShapeKeyGroupView,
                            ConvertError,
                        >::Ok(out@[j]@),
                    decreases n - i,
                {
                    match ShapeKeyGroup::from_raw(&v[i]) {
                        Result::Ok(g) => {
                            out.push(g);
                        },
                        Result::Err(e) => {
                            proof {
                                lemma_convert_seq_err(v@, fg, i as int);
                            }
                            return Result::Err(e);
                        },
                    }
                    i = i + 1;
                }
                proof {
                    lemma_convert_seq_ok(v@, fg, out@.map_values(group_view_fn()));
                }
                out
            },
            Option::None => Vec::new(),
        };
        let drivers = match &raw.drivers {
            Option::Some(v) => {
                let mut out: Vec<Driver> = Vec::new();
                let n = v.len();
                let mut i: usize = 0;
                while i < n
                    invariant
                        i <= n,
                        out@.len() == i,
                        forall|j: int| 0 <= j < i ==> out@[j]@ == spec_convert_driver(v@[j]),
                    decreases n - i,
                {
                    out.push(Driver::from_raw(&v[i]));
                    i = i + 1;
                }
                out
            },
            Option::None => Vec::new(),
        };
        let d = Descriptor { name: raw.name.clone(), shape_switches, shape_groups, drivers };
        proof {
            let drivers_seq: Seq<RawDriver> = match &raw.drivers {
                Option::Some(v) => v@,
                Option::None => Seq::empty(),
            };
            assert(Seq::<ShapeKeyGroup>::empty().map_values(group_view_fn())
                =~= Seq::<ShapeKeyGroupView>::empty());
            assert(d@.drivers =~= drivers_seq.map_values(raw_driver_conv_fn()));
        }
        Result::Ok(d)
    }
}


// ---------------------------------------------------------------------------
// Driver resolution: symbolic drive references become concrete parameter
// actions, under the same index-assignment rule that group emission uses.
// ---------------------------------------------------------------------------

/// The first position at or after `i` of a group with the given name, or -1.
pub open spec fn spec_first_group_from(groups: Seq<ShapeKeyGroup>, name: Seq<char>, i: int) -> int
    decreases groups.len() - i,
{
    if i < 0 || i >= groups.len() {
        -1
    } else if groups[i].common.name@ == name {
        i
    } else {
        spec_first_group_from(groups, name, i + 1)
    }
}

/// The first position at or after `i` of an option with the given label, or
/// -1.
pub open spec fn spec_first_option_from(
    options: Seq<ShapeKeyOption>,
    label: Seq<char>,
    i: int,
) -> int
    decreases options.len() - i,
{
    if i < 0 || i >= options.len() {
        -1
    } else if options[i].label@ == label {
        i
    } else {
        spec_first_option_from(options, label, i + 1)
    }
}

/// A found group position lies in range and names the group searched for.
pub proof fn lemma_first_group_bounds(groups: Seq<ShapeKeyGroup>, name: Seq<char>, i: int)
    ensures
        ({
            let r = spec_first_group_from(groups, name, i);
            r == -1 || (i <= r < groups.len() && groups[r].common.name@ == name)
        }),
    decreases groups.len() - i,
{
    if i < 0 || i >= groups.len() {
    } else if groups[i].common.name@ == name {
    } else {
        lemma_first_group_bounds(groups, name, i + 1);
    }
}

/// A found option position lies in range and carries the label searched for.
pub proof fn lemma_first_option_bounds(options: Seq<ShapeKeyOption>, label: Seq<char>, i: int)
    ensures
        ({
            let r = spec_first_option_from(options, label, i);
            r == -1 || (i <= r < options.len() && options[r].label@ == label)
        }),
    decreases options.len() - i,
{
    if i < 0 || i >= options.len() {
    } else if options[i].label@ == label {
    } else {
        lemma_first_option_bounds(options, label, i + 1);
    }
}

/// The state index assigned to the option at position `pos` (0-based): its
/// explicit index if given, else its 1-based position.
pub open spec fn spec_assigned_index(o: ShapeKeyOption, pos: int) -> int {
    match o.index {
        Option::Some(pi) => pi.spec_get() as int,
        Option::None => pos + 1,
    }
}

/// Whether one symbolic drive can be resolved against the descriptor: a
/// group drive must name a group whose first occurrence holds the label.
/// Validation guarantees this whenever group names are not duplicated.
pub open spec fn spec_drive_resolvable(d: Descriptor, drive: Drive) -> bool {
    match drive {
        Drive::Switch { .. } => true,
        Drive::Group { name, label } => {
            let gi = spec_first_group_from(d.shape_groups@, name@, 0);
            gi >= 0 && spec_first_option_from(d.shape_groups@[gi].options@, label@, 0) >= 0
        },
    }
}

/// The resolved form of one symbolic drive.
pub open spec fn spec_resolve_drive(d: Descriptor, drive: Drive) -> ResolvedDrive {
    match drive {
        Drive::Switch { name, enabled } => ResolvedDrive::Bool { name, enabled },
        Drive::Group { name, label } => {
            let gi = spec_first_group_from(d.shape_groups@, name@, 0);
            let options = d.shape_groups@[gi].options@;
            let oi = spec_first_option_from(options, label@, 0);
            ResolvedDrive::Integer {
                name,
                index: spec_assigned_index(options[oi], oi) as usize,
            }
        },
    }
}

/// The drive-resolution function against a fixed descriptor.
pub open spec fn resolve_drive_fn(d: Descriptor) -> spec_fn(Drive) -> ResolvedDrive {
    |dr: Drive| spec_resolve_drive(d, dr)
}

/// Whether every drive of a driver option is resolvable.
pub open spec fn spec_option_resolvable(d: Descriptor, o: DriverOption) -> bool {
    forall|j: int| 0 <= j < o.drives@.len() ==> spec_drive_resolvable(d, #[trigger] o.drives@[j])
}

/// The resolved form of one driver option.
pub open spec fn spec_resolve_option(d: Descriptor, o: DriverOption) -> ResolvedDriverOptionView {
    ResolvedDriverOptionView { label: o.label, drives: o.drives@.map_values(resolve_drive_fn(d)) }
}

/// The option-resolution function against a fixed descriptor.
pub open spec fn resolve_option_fn(d: Descriptor) -> spec_fn(
    DriverOption,
) -> ResolvedDriverOptionView {
    |o: DriverOption| spec_resolve_option(d, o)
}

/// Whether every drive of a driver is resolvable.
pub open spec fn spec_driver_resolvable(d: Descriptor, driver: Driver) -> bool {
    forall|i: int| 0 <= i < driver.options@.len() ==> spec_option_resolvable(
        d,
        #[trigger] driver.options@[i],
    )
}

/// The resolved form of a whole driver.
pub open spec fn spec_resolve_driver(d: Descriptor, driver: Driver) -> ResolvedDriverView {
    ResolvedDriverView {
        name: driver.name,
        options: driver.options@.map_values(resolve_option_fn(d)),
    }
}

/// The position of the first group with the given name, if any.
#[verifier::loop_isolation(false)]
fn find_group_index(groups: &Vec<ShapeKeyGroup>, name: &String) -> (r: Option<usize>)
    ensures
        match r {
            Option::Some(i) => spec_first_group_from(groups@, name@, 0) == i as int,
            Option::None => spec_first_group_from(groups@, name@, 0) == -1,
        },
{
    let n = groups.len();
    let mut i: usize = 0;
    while i < n
        invariant
            i <= n,
            spec_first_group_from(groups@, name@, 0) == spec_first_group_from(
                groups@,
                name@,
                i as int,
            ),
        decreases n - i,
    {
        if groups[i].common.name == *name {
            return Option::Some(i);
        }
        i = i + 1;
    }
    Option::None
}

/// The position of the first option with the given label, if any.
#[verifier::loop_isolation(false)]
fn find_option_index(options: &Vec<ShapeKeyOption>, label: &String) -> (r: Option<usize>)
    ensures
        match r {
            Option::Some(i) => spec_first_option_from(options@, label@, 0) == i as int,
            Option::None => spec_first_option_from(options@, label@, 0) == -1,
        },
{
    let n = options.len();
    let mut i: usize = 0;
    while i < n
        invariant
            i <= n,
            spec_first_option_from(options@, label@, 0) == spec_first_option_from(
                options@,
                label@,
                i as int,
            ),
        decreases n - i,
    {
        if options[i].label == *label {
            return Option::Some(i);
        }
        i = i + 1;
    }
    Option::None
}

impl ResolvedDrive {
    /// Resolves one symbolic drive: a switch drive becomes a boolean action
    /// as it stands; a group drive looks up the first group of that name and
    /// the first option with that label, and takes the index group emission
    /// would assign to it.
    pub fn resolve(descriptor: &Descriptor, drive: &Drive) -> (r: ResolvedDrive)
        requires
            spec_drive_resolvable(*descriptor, *drive),
        ensures
            r == spec_resolve_drive(*descriptor, *drive),
    {
        match drive {
            Drive::Switch { name, enabled } => ResolvedDrive::Bool {
                name: name.clone(),
                enabled: *enabled,
            },
            Drive::Group { name, label } => {
                let gi = match find_group_index(&descriptor.shape_groups, name) {
                    Option::Some(i) => i,
                    Option::None => unreached(),
                };
                proof {
                    lemma_first_group_bounds(descriptor.shape_groups@, name@, 0);
                }
                let group = &descriptor.shape_groups[gi];
                let oi = match find_option_index(&group.options, label) {
                    Option::Some(i) => i,
                    Option::None => unreached(),
                };
                let olen = group.options.len();
                proof {
                    lemma_first_option_bounds(group.options@, label@, 0);
                    assert(oi < olen);
                }
                let index: usize = match &group.options[oi].index {
                    Option::Some(pi) => pi.get(),
                    Option::None => oi + 1,
                };
                ResolvedDrive::Integer { name: name.clone(), index }
            },
        }
    }
}

impl ResolvedDriverOption {
    /// Resolves one driver option, drive by drive.
    #[verifier::loop_isolation(false)]
    pub fn resolve(descriptor: &Descriptor, option: &DriverOption) -> (r: ResolvedDriverOption)
        requires
            spec_option_resolvable(*descriptor, *option),
        ensures
            r@ == spec_resolve_option(*descriptor, *option),
    {
        let mut drives: Vec<ResolvedDrive> = Vec::new();
        let n = option.drives.len();
        let mut i: usize = 0;
        while i < n
            invariant
                i <= n,
                drives@.len() == i,
                forall|j: int| 0 <= j < i ==> drives@[j] == spec_resolve_drive(
                    *descriptor,
                    option.drives@[j],
                ),
            decreases n - i,
        {
            drives.push(ResolvedDrive::resolve(descriptor, &option.drives[i]));
            i = i + 1;
        }
        let r = ResolvedDriverOption { label: option.label.clone(), drives };
        proof {
            assert(r@.drives =~= option.drives@.map_values(resolve_drive_fn(*descriptor)));
        }
        r
    }
}

impl ResolvedDriver {
    /// Resolves a whole driver layer against the descriptor.
    #[verifier::loop_isolation(false)]
    pub fn resolve(descriptor: &Descriptor, driver: &Driver) -> (r: ResolvedDriver)
        requires
            spec_driver_resolvable(*descriptor, *driver),
        ensures
            r@ == spec_resolve_driver(*descriptor, *driver),
    {
        let mut options: Vec<ResolvedDriverOption> = Vec::new();
        let n = driver.options.len();
        let mut i: usize = 0;
        while i < n
            invariant
                i <= n,
                options@.len() == i,
                forall|j: int| 0 <= j < i ==> options@[j]@ == spec_resolve_option(
                    *descriptor,
                    driver.options@[j],
                ),
            decreases n - i,
        {
            options.push(ResolvedDriverOption::resolve(descriptor, &driver.options[i]));
            i = i + 1;
        }
        let r = ResolvedDriver { name: driver.name.clone(), options };
        proof {
            assert(r@.options =~= driver.options@.map_values(resolve_option_fn(*descriptor)));
        }
        r
    }
}


// ---------------------------------------------------------------------------
// Laws of conversion and resolution.
// ---------------------------------------------------------------------------

/// When a group bears the searched name and no earlier group does, the
/// search finds exactly that group: resolution always reads the first group
/// of a name.
pub proof fn lemma_first_group_is_the_match(
    groups: Seq<ShapeKeyGroup>,
    name: Seq<char>,
    k: int,
    i: int,
)
    requires
        0 <= k <= i < groups.len(),
        groups[i].common.name@ == name,
        forall|j: int| k <= j < i ==> (#[trigger] groups[j]).common.name@ != name,
    ensures
        spec_first_group_from(groups, name, k) == i,
    decreases i - k,
{
    if k < i {
        lemma_first_group_is_the_match(groups, name, k + 1, i);
    }
}

/// When an option bears the searched label and no earlier option does, the
/// search finds exactly that option.
pub proof fn lemma_first_option_is_the_match(
    options: Seq<ShapeKeyOption>,
    label: Seq<char>,
    k: int,
    i: int,
)
    requires
        0 <= k <= i < options.len(),
        options[i].label@ == label,
        forall|j: int| k <= j < i ==> (#[trigger] options[j]).label@ != label,
    ensures
        spec_first_option_from(options, label, k) == i,
    decreases i - k,
{
    if k < i {
        lemma_first_option_is_the_match(options, label, k + 1, i);
    }
}

/// A bare-label option, and a labelled option without explicit drives,
/// convert to exactly one drive: the like-named shape driven to 1.0, with no
/// explicit index for the bare label.
pub proof fn lemma_bare_label_single_drive(label: String)
    ensures
        spec_convert_option(RawShapeKeyOption::Simple(label)) == Result::<
            ShapeKeyOptionView,
            ConvertError,
        >::Ok(
            ShapeKeyOptionView {
                label: label,
                index: Option::None,
                shapes: seq![
                    ShapeKeyDrive { shape: label, value: NormalizedValue::from_permille(1000) }
                ],
            },
        ),
{
}

/// In a group whose options carry no explicit index, the assigned state
/// indices are exactly the 1-based option positions.
pub proof fn lemma_positional_indices(g: ShapeKeyGroup)
    requires
        forall|i: int| 0 <= i < g.options@.len() ==> (#[trigger] g.options@[i]).index is None,
    ensures
        forall|i: int|
            0 <= i < g.options@.len() ==> spec_assigned_index(#[trigger] g.options@[i], i) == i + 1,
{
}

/// In a group whose earlier siblings bear other names, a drive referencing
/// the label of an unindexed option resolves to that option's 1-based
/// position: over a group of N pairwise-distinct, unindexed labels the
/// resolved indices are exactly 1 through N in option order.
pub proof fn lemma_unindexed_labels_resolve_to_positions(d: Descriptor, gi: int, oi: int)
    requires
        0 <= gi < d.shape_groups@.len(),
        forall|j: int|
            0 <= j < gi ==> (#[trigger] d.shape_groups@[j]).common.name@ != d.shape_groups@[
                gi
            ].common.name@,
        0 <= oi < d.shape_groups@[gi].options@.len(),
        forall|j: int|
            0 <= j < oi ==> (#[trigger] d.shape_groups@[gi].options@[j]).label@ != d.shape_groups@[
                gi
            ].options@[oi].label@,
        d.shape_groups@[gi].options@[oi].index is None,
    ensures
        spec_drive_resolvable(
            d,
            (Drive::Group {
                name: d.shape_groups@[gi].common.name,
                label: d.shape_groups@[gi].options@[oi].label,
            }),
        ),
        spec_resolve_drive(
            d,
            (Drive::Group {
                name: d.shape_groups@[gi].common.name,
                label: d.shape_groups@[gi].options@[oi].label,
            }),
        ) == (ResolvedDrive::Integer {
            name: d.shape_groups@[gi].common.name,
            index: (oi + 1) as usize,
        }),
{
    lemma_first_group_is_the_match(d.shape_groups@, d.shape_groups@[gi].common.name@, 0, gi);
    lemma_first_option_is_the_match(
        d.shape_groups@[gi].options@,
        d.shape_groups@[gi].options@[oi].label@,
        0,
        oi,
    );
}

/// A driver's group drive resolves to the very index that group emission
/// assigns to the option sharing its label: the explicit index if one was
/// given, else the option's 1-based position. Both sides go through
/// `spec_assigned_index` on the first option of the first group with the
/// referenced name.
pub proof fn lemma_resolution_matches_emission(d: Descriptor, name: String, label: String)
    requires
        spec_drive_resolvable(d, Drive::Group { name, label }),
    ensures
        ({
            let gi = spec_first_group_from(d.shape_groups@, name@, 0);
            let options = d.shape_groups@[gi].options@;
            let oi = spec_first_option_from(options, label@, 0);
            spec_resolve_drive(d, Drive::Group { name, label }) == ResolvedDrive::Integer {
                name,
                index: spec_assigned_index(options[oi], oi) as usize,
            }
        }),
{
}

} // verus!
