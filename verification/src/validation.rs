//! The semantic validator: a second pass over a fully-built descriptor
//! checking identifier syntax and cross-entity references. Value bounds are
//! not re-checked here; they are enforced at construction.

use crate::descriptor::{Descriptor, Drive, Driver, DriverOption, ShapeKeyGroup, ShapeKeySwitch};
use vstd::prelude::*;

verus! {

/// A violation found by validation.
#[derive(Debug, Clone)]
pub enum ValidationError {
    /// A name is invalid for an identifier or parameter name.
    InvalidName(String),
    /// A referenced switch, group, or label was not found.
    NameNotExist(String),
}

impl ValidationError {
    /// The description `message` returns.
    pub open spec fn spec_message(&self) -> Seq<char> {
        match self {
            ValidationError::InvalidName(s) => "invalid name for an identifier: \""@ + s@ + "\""@,
            ValidationError::NameNotExist(s) => "No group or switch found: \""@ + s@ + "\""@,
        }
    }

    /// A description of the violation, naming the offending identifier.
    pub fn message(&self) -> (r: String)
        ensures
            r@ == self.spec_message(),
    {
        let mut s = match self {
            ValidationError::InvalidName(_) => String::from_str(
                "invalid name for an identifier: \"",
            ),
            ValidationError::NameNotExist(_) => String::from_str("No group or switch found: \""),
        };
        match self {
            ValidationError::InvalidName(n) => s.append(n.as_str()),
            ValidationError::NameNotExist(n) => s.append(n.as_str()),
        }
        s.append("\"");
        s
    }
}

/// Shorthand for the validator's result.
pub type ValidationResult = Result<(), ValidationError>;

/// Whether a character may appear in an identifier: an ASCII letter or
/// digit.
pub open spec fn spec_name_char_ok(c: char) -> bool {
    let n = c as u32;
    (48 <= n <= 57) || (65 <= n <= 90) || (97 <= n <= 122)
}

/// Whether a string is a valid identifier: every character is an ASCII
/// letter or digit.
pub open spec fn spec_valid_name(s: Seq<char>) -> bool {
    forall|i: int| 0 <= i < s.len() ==> spec_name_char_ok(#[trigger] s[i])
}

/// Checks identifier syntax: accepts exactly the strings that contain no
/// character other than ASCII letters and digits.
#[verifier::loop_isolation(false)]
pub fn valid_name(s: &String) -> (r: bool)
    ensures
        r == spec_valid_name(s@),
{
    let st: &str = s.as_str();
    let n = st.unicode_len();
    let mut i: usize = 0;
    while i < n
        invariant
            i <= n,
            n == st@.len(),
            forall|j: int| 0 <= j < i ==> spec_name_char_ok(#[trigger] st@[j]),
        decreases n - i,
    {
        let c = st.get_char(i);
        let u = c as u32;
        let ok = (48 <= u && u <= 57) || (65 <= u && u <= 90) || (97 <= u && u <= 122);
        if !ok {
            return false;
        }
        i = i + 1;
    }
    true
}

/// Whether some switch carries the given name.
pub open spec fn spec_switch_ref_ok(d: Descriptor, name: Seq<char>) -> bool {
    exists|i: int|
        0 <= i < d.shape_switches@.len() && (#[trigger] d.shape_switches@[i]).common.name@ == name
}

/// Whether some group carries the given name and holds an option with the
/// given label.
pub open spec fn spec_group_ref_ok(d: Descriptor, name: Seq<char>, label: Seq<char>) -> bool {
    exists|i: int|
        0 <= i < d.shape_groups@.len() && (#[trigger] d.shape_groups@[i]).common.name@ == name
            && exists|j: int|
            0 <= j < d.shape_groups@[i].options@.len() && (#[trigger] d.shape_groups@[i].options@[
                j
            ]).label@ == label
}

/// The first violation of one symbolic drive, if any: a switch drive must
/// name an existing switch; a group drive must name an existing group
/// holding the label.
pub open spec fn spec_validate_drive(d: Descriptor, drive: Drive) -> ValidationResult {
    match drive {
        Drive::Switch { name, .. } => if spec_switch_ref_ok(d, name@) {
            Result::Ok(())
        } else {
            Result::Err(ValidationError::NameNotExist(name))
        },
        Drive::Group { name, label } => if spec_group_ref_ok(d, name@, label@) {
            Result::Ok(())
        } else {
            Result::Err(ValidationError::NameNotExist(name))
        },
    }
}

/// The first violation among the drives from position `i` on.
pub open spec fn spec_validate_drives_from(
    d: Descriptor,
    drives: Seq<Drive>,
    i: int,
) -> ValidationResult
    decreases drives.len() - i,
{
    if i < 0 || i >= drives.len() {
        Result::Ok(())
    } else {
        match spec_validate_drive(d, drives[i]) {
            Result::Err(e) => Result::Err(e),
            Result::Ok(()) => spec_validate_drives_from(d, drives, i + 1),
        }
    }
}

/// The first violation among the driver options from position `i` on.
pub open spec fn spec_validate_driver_options_from(
    d: Descriptor,
    options: Seq<DriverOption>,
    i: int,
) -> ValidationResult
    decreases options.len() - i,
{
    if i < 0 || i >= options.len() {
        Result::Ok(())
    } else {
        match spec_validate_drives_from(d, options[i].drives@, 0) {
            Result::Err(e) => Result::Err(e),
            Result::Ok(()) => spec_validate_driver_options_from(d, options, i + 1),
        }
    }
}

/// The first violation of one driver: its name first, then its drives in
/// order.
pub open spec fn spec_validate_driver(d: Descriptor, driver: Driver) -> ValidationResult {
    if !spec_valid_name(driver.name@) {
        Result::Err(ValidationError::InvalidName(driver.name))
    } else {
        spec_validate_driver_options_from(d, driver.options@, 0)
    }
}

/// The first violation among the drivers from position `i` on.
pub open spec fn spec_validate_drivers_from(
    d: Descriptor,
    drivers: Seq<Driver>,
    i: int,
) -> ValidationResult
    decreases drivers.len() - i,
{
    if i < 0 || i >= drivers.len() {
        Result::Ok(())
    } else {
        match spec_validate_driver(d, drivers[i]) {
            Result::Err(e) => Result::Err(e),
            Result::Ok(()) => spec_validate_drivers_from(d, drivers, i + 1),
        }
    }
}

/// The first invalid switch name from position `i` on.
pub open spec fn spec_validate_switches_from(
    switches: Seq<ShapeKeySwitch>,
    i: int,
) -> ValidationResult
    decreases switches.len() - i,
{
    if i < 0 || i >= switches.len() {
        Result::Ok(())
    } else if !spec_valid_name(switches[i].common.name@) {
        Result::Err(ValidationError::InvalidName(switches[i].common.name))
    } else {
        spec_validate_switches_from(switches, i + 1)
    }
}

/// The first invalid group name from position `i` on.
pub open spec fn spec_validate_groups_from(groups: Seq<ShapeKeyGroup>, i: int) -> ValidationResult
    decreases groups.len() - i,
{
    if i < 0 || i >= groups.len() {
        Result::Ok(())
    } else if !spec_valid_name(groups[i].common.name@) {
        Result::Err(ValidationError::InvalidName(groups[i].common.name))
    } else {
        spec_validate_groups_from(groups, i + 1)
    }
}

/// The first violation of a whole descriptor, in validation order: the
/// avatar name, each switch's name, each group's name, then each driver's
/// name and references.
pub open spec fn spec_validate_descriptor(d: Descriptor) -> ValidationResult {
    if !spec_valid_name(d.name@) {
        Result::Err(ValidationError::InvalidName(d.name))
    } else {
        match spec_validate_switches_from(d.shape_switches@, 0) {
            Result::Err(e) => Result::Err(e),
            Result::Ok(()) => match spec_validate_groups_from(d.shape_groups@, 0) {
                Result::Err(e) => Result::Err(e),
                Result::Ok(()) => spec_validate_drivers_from(d, d.drivers@, 0),
            },
        }
    }
}

/// Whether a whole descriptor is semantically valid: every identifier-role
/// string is made of ASCII letters and digits, and every driver reference
/// names an existing switch, or group and label.
pub open spec fn spec_descriptor_valid(d: Descriptor) -> bool {
    &&& spec_valid_name(d.name@)
    &&& forall|i: int|
        0 <= i < d.shape_switches@.len() ==> spec_valid_name(
            (#[trigger] d.shape_switches@[i]).common.name@,
        )
    &&& forall|i: int|
        0 <= i < d.shape_groups@.len() ==> spec_valid_name(
            (#[trigger] d.shape_groups@[i]).common.name@,
        )
    &&& forall|i: int|
        0 <= i < d.drivers@.len() ==> spec_valid_name((#[trigger] d.drivers@[i]).name@)
    &&& forall|i: int, j: int, k: int|
        0 <= i < d.drivers@.len() && 0 <= j < d.drivers@[i].options@.len() && 0 <= k
            < d.drivers@[i].options@[j].drives@.len() ==> spec_validate_drive(
            d,
            #[trigger] d.drivers@[i].options@[j].drives@[k],
        ) is Ok
}

/// Checks whether some switch carries the given name.
#[verifier::loop_isolation(false)]
fn switch_exists(switches: &Vec<ShapeKeySwitch>, name: &String, Ghost(d): Ghost<Descriptor>) -> (r:
    bool)
    requires
        d.shape_switches@ == switches@,
    ensures
        r == spec_switch_ref_ok(d, name@),
{
    let n = switches.len();
    let mut i: usize = 0;
    while i < n
        invariant
            i <= n,
            forall|j: int| 0 <= j < i ==> (#[trigger] switches@[j]).common.name@ != name@,
        decreases n - i,
    {
        if switches[i].common.name == *name {
            return true;
        }
        i = i + 1;
    }
    false
}

/// Checks whether some group carries the given name and holds the label.
#[verifier::loop_isolation(false)]
fn group_with_label_exists(
    groups: &Vec<ShapeKeyGroup>,
    name: &String,
    label: &String,
    Ghost(d): Ghost<Descriptor>,
) -> (r: bool)
    requires
        d.shape_groups@ == groups@,
    ensures
        r == spec_group_ref_ok(d, name@, label@),
{
    let n = groups.len();
    let mut i: usize = 0;
    while i < n
        invariant
            i <= n,
            forall|gi: int|
                0 <= gi < i ==> !((#[trigger] groups@[gi]).common.name@ == name@ && exists|j: int|
                    0 <= j < groups@[gi].options@.len() && (#[trigger] groups@[gi].options@[
                        j
                    ]).label@ == label@),
        decreases n - i,
    {
        if groups[i].common.name == *name {
            let options = &groups[i].options;
            let m = options.len();
            let mut j: usize = 0;
            while j < m
                invariant
                    j <= m,
                    m == options@.len(),
                    options@ == groups@[i as int].options@,
                    forall|k: int| 0 <= k < j ==> (#[trigger] options@[k]).label@ != label@,
                decreases m - j,
            {
                if options[j].label == *label {
                    return true;
                }
                j = j + 1;
            }
        }
        i = i + 1;
    }
    false
}

/// Validates one symbolic drive against the descriptor.
fn validate_drive(descriptor: &Descriptor, drive: &Drive) -> (r: ValidationResult)
    ensures
        r == spec_validate_drive(*descriptor, *drive),
{
    match drive {
        Drive::Switch { name, .. } => {
            if switch_exists(&descriptor.shape_switches, name, Ghost(*descriptor)) {
                Result::Ok(())
            } else {
                Result::Err(ValidationError::NameNotExist(name.clone()))
            }
        },
        Drive::Group { name, label } => {
            if group_with_label_exists(&descriptor.shape_groups, name, label, Ghost(*descriptor)) {
                Result::Ok(())
            } else {
                Result::Err(ValidationError::NameNotExist(name.clone()))
            }
        },
    }
}

/// Validates one driver: its name, then every drive of every option.
#[verifier::loop_isolation(false)]
fn validate_driver(descriptor: &Descriptor, driver: &Driver) -> (r: ValidationResult)
    ensures
        r == spec_validate_driver(*descriptor, *driver),
{
    if !valid_name(&driver.name) {
        return Result::Err(ValidationError::InvalidName(driver.name.clone()));
    }
    let n = driver.options.len();
    let mut i: usize = 0;
    while i < n
        invariant
            i <= n,
            spec_validate_driver_options_from(*descriptor, driver.options@, 0)
                == spec_validate_driver_options_from(*descriptor, driver.options@, i as int),
        decreases n - i,
    {
        let drives = &driver.options[i].drives;
        let m = drives.len();
        let mut j: usize = 0;
        while j < m
            invariant
                j <= m,
                m == drives@.len(),
                drives@ == driver.options@[i as int].drives@,
                i < n,
                spec_validate_drives_from(*descriptor, drives@, 0) == spec_validate_drives_from(
                    *descriptor,
                    drives@,
                    j as int,
                ),
            decreases m - j,
        {
            match validate_drive(descriptor, &drives[j]) {
                Result::Ok(()) => {},
                Result::Err(e) => {
                    return Result::Err(e);
                },
            }
            j = j + 1;
        }
        i = i + 1;
    }
    Result::Ok(())
}

/// Validates a whole descriptor: the avatar name, each switch's and group's
/// name, then each driver's name and references, returning the first
/// violation found.
#[verifier::loop_isolation(false)]
pub fn validate_descriptor(descriptor: &Descriptor) -> (r: ValidationResult)
    ensures
        r == spec_validate_descriptor(*descriptor),
{
    if !valid_name(&descriptor.name) {
        return Result::Err(ValidationError::InvalidName(descriptor.name.clone()));
    }
    let n = descriptor.shape_switches.len();
    let mut i: usize = 0;
    while i < n
        invariant
            i <= n,
            spec_validate_switches_from(descriptor.shape_switches@, 0)
                == spec_validate_switches_from(descriptor.shape_switches@, i as int),
        decreases n - i,
    {
        if !valid_name(&descriptor.shape_switches[i].common.name) {
            return Result::Err(
                ValidationError::InvalidName(descriptor.shape_switches[i].common.name.clone()),
            );
        }
        i = i + 1;
    }
    let n = descriptor.shape_groups.len();
    let mut i: usize = 0;
    while i < n
        invariant
            i <= n,
            spec_validate_groups_from(descriptor.shape_groups@, 0) == spec_validate_groups_from(
                descriptor.shape_groups@,
                i as int,
            ),
        decreases n - i,
    {
        if !valid_name(&descriptor.shape_groups[i].common.name) {
            return Result::Err(
                ValidationError::InvalidName(descriptor.shape_groups[i].common.name.clone()),
            );
        }
        i = i + 1;
    }
    let n = descriptor.drivers.len();
    let mut i: usize = 0;
    while i < n
        invariant
            i <= n,
            spec_validate_drivers_from(*descriptor, descriptor.drivers@, 0)
                == spec_validate_drivers_from(*descriptor, descriptor.drivers@, i as int),
        decreases n - i,
    {
        match validate_driver(descriptor, &descriptor.drivers[i]) {
            Result::Ok(()) => {},
            Result::Err(e) => {
                return Result::Err(e);
            },
        }
        i = i + 1;
    }
    Result::Ok(())
}


// ---------------------------------------------------------------------------
// The acceptance law: validation succeeds on exactly the valid descriptors.
// ---------------------------------------------------------------------------

proof fn lemma_switches_ok_iff(switches: Seq<ShapeKeySwitch>, i: int)
    requires
        0 <= i <= switches.len(),
    ensures
        spec_validate_switches_from(switches, i) is Ok <==> forall|j: int|
            i <= j < switches.len() ==> spec_valid_name((#[trigger] switches[j]).common.name@),
    decreases switches.len() - i,
{
    if i < switches.len() {
        lemma_switches_ok_iff(switches, i + 1);
    }
}

proof fn lemma_groups_ok_iff(groups: Seq<ShapeKeyGroup>, i: int)
    requires
        0 <= i <= groups.len(),
    ensures
        spec_validate_groups_from(groups, i) is Ok <==> forall|j: int|
            i <= j < groups.len() ==> spec_valid_name((#[trigger] groups[j]).common.name@),
    decreases groups.len() - i,
{
    if i < groups.len() {
        lemma_groups_ok_iff(groups, i + 1);
    }
}

proof fn lemma_drives_ok_iff(d: Descriptor, drives: Seq<Drive>, i: int)
    requires
        0 <= i <= drives.len(),
    ensures
        spec_validate_drives_from(d, drives, i) is Ok <==> forall|j: int|
            i <= j < drives.len() ==> spec_validate_drive(d, #[trigger] drives[j]) is Ok,
    decreases drives.len() - i,
{
    if i < drives.len() {
        lemma_drives_ok_iff(d, drives, i + 1);
    }
}

proof fn lemma_driver_options_ok_iff(d: Descriptor, options: Seq<DriverOption>, i: int)
    requires
        0 <= i <= options.len(),
    ensures
        spec_validate_driver_options_from(d, options, i) is Ok <==> forall|j: int, k: int|
            i <= j < options.len() && 0 <= k < options[j].drives@.len() ==> spec_validate_drive(
                d,
                #[trigger] options[j].drives@[k],
            ) is Ok,
    decreases options.len() - i,
{
    if i < options.len() {
        lemma_drives_ok_iff(d, options[i].drives@, 0);
        lemma_driver_options_ok_iff(d, options, i + 1);
    }
}

proof fn lemma_drivers_ok_iff(d: Descriptor, drivers: Seq<Driver>, i: int)
    requires
        0 <= i <= drivers.len(),
    ensures
        spec_validate_drivers_from(d, drivers, i) is Ok <==> forall|j: int|
            i <= j < drivers.len() ==> (spec_valid_name((#[trigger] drivers[j]).name@)
                && forall|m: int, k: int|
                0 <= m < drivers[j].options@.len() && 0 <= k < drivers[j].options@[m].drives@.len()
                    ==> spec_validate_drive(d, #[trigger] drivers[j].options@[m].drives@[k]) is Ok),
    decreases drivers.len() - i,
{
    if i < drivers.len() {
        lemma_driver_options_ok_iff(d, drivers[i].options@, 0);
        lemma_drivers_ok_iff(d, drivers, i + 1);
    }
}

/// Validation accepts a descriptor exactly when it is semantically valid:
/// every identifier-role string consists of ASCII letters and digits alone,
/// and every driver drive references an existing switch, or an existing
/// group holding the referenced label.
pub proof fn lemma_validation_accepts_iff_valid(d: Descriptor)
    ensures
        spec_validate_descriptor(d) is Ok <==> spec_descriptor_valid(d),
{
    lemma_switches_ok_iff(d.shape_switches@, 0);
    lemma_groups_ok_iff(d.shape_groups@, 0);
    lemma_drivers_ok_iff(d, d.drivers@, 0);
}

} // verus!
