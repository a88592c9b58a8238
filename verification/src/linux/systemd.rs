//! Unit names, activation identities and resource properties of systemd units.
//!
//! A change of properties is a transaction: the properties are set, read back,
//! and set to what they were where the read-back fails or differs.

use vstd::prelude::*;
use vstd::utf8::encode_utf8;
use crate::cpuset::{ids_ascending, CpuIds};
use crate::model::char_is_alphanumeric;
use crate::model::is_alphanumeric;
use crate::number::{decimal_text, format_u64};
use crate::paths::is_absolute;
use crate::platform::{
    malformed, IoFailure, IoKind, IoView, PlatformError, PlatformErrorView, PlatformResult,
    SystemdUnitInstanceIdentity, SystemdUnitInstanceKey, SystemdUnitProperties, UnitView,
};
use crate::text::{
    cat2, cat3, cat4, cat5, chars_of, contains_char, ends_with, has_suffix, pieces, same, split,
    starts_with, string_of, texts, Divider,
};
use super::scheduler::{copy_error, OUT_OF_RANGE};
use super::shown::{show_unit, unit_text};

verus! {

/// The smallest CPU weight.
pub const MIN_CPU_WEIGHT: u64 = 1;

/// The largest CPU weight.
pub const MAX_CPU_WEIGHT: u64 = 10_000;

/// The weight that stands for no weight.
pub const UNSET_CPU_WEIGHT: u64 = u64::MAX;

/// The name under which a bus object stands in messages.
pub open spec fn resource(name: Seq<char>) -> Seq<char> {
    if is_absolute(name) {
        name
    } else {
        "dbus/"@ + name
    }
}

/// The name under which a bus object stands in messages.
pub fn dbus_resource(name: &str) -> (out: String)
    ensures
        out@ == resource(name@),
{
    let rooted = starts_with(name, "/");
    proof {
        reveal_strlit("/");
        assert("/"@ =~= seq!['/']);
        if is_absolute(name@) {
            assert(name@.take(1) =~= "/"@);
        }
        if rooted {
            assert(name@.take(1)[0] == '/');
        }
    }
    if rooted {
        name.to_owned()
    } else {
        cat2("dbus/", name)
    }
}

/// Whether `c` may stand in a unit name.
pub open spec fn is_unit_char(c: char) -> bool {
    is_alphanumeric(c) || c == ':' || c == '_' || c == '-' || c == '.' || c == '@' || c == '\\'
}

/// Whether every character may stand in a unit name.
pub open spec fn unit_chars(s: Seq<char>) -> bool {
    forall|i: int| 0 <= i < s.len() ==> is_unit_char(#[trigger] s[i])
}

/// The interface of the unit that a name stands for, or why it is out of reach.
pub open spec fn unit_interface(unit: Seq<char>) -> Result<Seq<char>, PlatformErrorView> {
    let bytes = encode_utf8(unit).len();
    if bytes == 0 || bytes > 256 {
        Err(malformed(resource(unit), "systemd unit name must contain 1..=256 bytes"@))
    } else if !unit_chars(unit) {
        Err(malformed(resource(unit), "systemd unit name contains a forbidden character"@))
    } else if has_suffix(unit, ".service"@) {
        Ok("org.freedesktop.systemd1.Service"@)
    } else if has_suffix(unit, ".scope"@) {
        Ok("org.freedesktop.systemd1.Scope"@)
    } else if has_suffix(unit, ".slice"@) {
        Ok("org.freedesktop.systemd1.Slice"@)
    } else {
        Err(
            PlatformErrorView::Unsupported(
                "only systemd service, scope, and slice units support workload controls"@,
            ),
        )
    }
}

/// The interface of the unit that a name stands for.
pub fn validate_unit_name(unit: &str) -> (r: PlatformResult<&'static str>)
    ensures
        match r {
            Ok(i) => unit_interface(unit@) == Ok::<Seq<char>, PlatformErrorView>(i@),
            Err(e) => unit_interface(unit@) == Err::<Seq<char>, PlatformErrorView>(e@),
        },
{
    let path = dbus_resource(unit);
    let bytes: usize = unit.as_bytes().len();
    if bytes == 0 || bytes > 256 {
        return Err(
            PlatformError::invalid(
                path.as_str(),
                "systemd unit name must contain 1..=256 bytes",
            ),
        );
    }
    let chars = chars_of(unit);
    let mut i: usize = 0;
    while i < chars.len()
        invariant
            i <= chars@.len(),
            chars@ == unit@,
            path@ == resource(unit@),
            0 < encode_utf8(unit@).len() <= 256,
            forall|j: int| 0 <= j < i ==> is_unit_char(#[trigger] unit@[j]),
        decreases chars@.len() - i,
    {
        let c = chars[i];
        let allowed = char_is_alphanumeric(c) || c == ':' || c == '_' || c == '-' || c == '.' || c
            == '@' || c == '\\';
        if !allowed {
            assert(!is_unit_char(unit@[i as int]));
            return Err(
                PlatformError::invalid(
                    path.as_str(),
                    "systemd unit name contains a forbidden character",
                ),
            );
        }
        i = i + 1;
    }
    if ends_with(unit, ".service") {
        Ok("org.freedesktop.systemd1.Service")
    } else if ends_with(unit, ".scope") {
        Ok("org.freedesktop.systemd1.Scope")
    } else if ends_with(unit, ".slice") {
        Ok("org.freedesktop.systemd1.Slice")
    } else {
        Err(
            PlatformError::Unsupported(
                "only systemd service, scope, and slice units support workload controls",
            ),
        )
    }
}

/// Why a number is no process identifier, if so.
pub open spec fn unit_pid_error(process: u32) -> Option<PlatformErrorView> {
    if process == 0 || process > i32::MAX {
        Some(
            malformed(
                "dbus/GetUnitByPID"@,
                "PID "@ + decimal_text(process as nat)
                    + " is outside the positive Linux pid_t range"@,
            ),
        )
    } else {
        None
    }
}

/// Checks a process identifier.
pub fn validate_pid(process: u32) -> (r: PlatformResult<()>)
    ensures
        match r {
            Ok(()) => unit_pid_error(process) is None,
            Err(e) => unit_pid_error(process) == Some(e@),
        },
{
    if process == 0 || process > i32::MAX as u32 {
        let number = format_u64(process as u64);
        let message = cat3(
            "PID ",
            number.as_str(),
            " is outside the positive Linux pid_t range",
        );
        Err(PlatformError::invalid("dbus/GetUnitByPID", message.as_str()))
    } else {
        Ok(())
    }
}

/// Whether a part of a control-group path is one.
pub open spec fn is_group_part(p: Seq<char>) -> bool {
    p.len() > 0 && p != "."@ && p != ".."@
}

/// Whether a text is an absolute control-group path without empty parts, dots
/// and terminators.
pub open spec fn valid_group(group: Seq<char>) -> bool {
    let rest = group.skip(1);
    &&& is_absolute(group)
    &&& rest.len() > 0
    &&& encode_utf8(rest).len() <= 4095
    &&& forall|i: int|
        0 <= i < pieces(rest, Divider::Char('/')).len() ==> is_group_part(
            #[trigger] pieces(rest, Divider::Char('/'))[i],
        )
    &&& !group.contains('\0')
}

/// The refusal of a control-group path.
pub open spec fn group_error(unit: Seq<char>, group: Seq<char>) -> PlatformErrorView {
    malformed(resource(unit), "systemd returned invalid ControlGroup `"@ + group + "`"@)
}

/// Whether every part of a relative control-group path is one.
fn parts_are_valid(rest: &str) -> (r: bool)
    ensures
        r == forall|i: int|
            0 <= i < pieces(rest@, Divider::Char('/')).len() ==> is_group_part(
                #[trigger] pieces(rest@, Divider::Char('/'))[i],
            ),
{
    let parts = split(rest, Divider::Char('/'));
    let ghost v = pieces(rest@, Divider::Char('/'));
    assert(v.len() == parts@.len());
    let mut i: usize = 0;
    while i < parts.len()
        invariant
            i <= parts@.len(),
            v == texts(parts@),
            v == pieces(rest@, Divider::Char('/')),
            forall|j: int| 0 <= j < i ==> is_group_part(#[trigger] v[j]),
        decreases parts@.len() - i,
    {
        let part = parts[i].as_str();
        assert(part@ == v[i as int]);
        if part.is_empty() || same(part, ".") || same(part, "..") {
            assert(!is_group_part(v[i as int]));
            return false;
        }
        i = i + 1;
    }
    true
}

/// Checks a control-group path.
pub fn validate_control_group(unit: &str, control_group: &str) -> (r: PlatformResult<()>)
    ensures
        match r {
            Ok(()) => valid_group(control_group@),
            Err(e) => !valid_group(control_group@) && e@ == group_error(unit@, control_group@),
        },
{
    let chars = chars_of(control_group);
    let mut valid = chars.len() > 1 && chars[0] == '/';
    if valid {
        let rest = string_of(&chars, 1, chars.len());
        assert(rest@ =~= control_group@.skip(1));
        valid = rest.as_str().as_bytes().len() <= 4095 && parts_are_valid(rest.as_str())
            && !contains_char(control_group, '\0');
    }
    if valid {
        Ok(())
    } else {
        let path = dbus_resource(unit);
        let message = cat3("systemd returned invalid ControlGroup `", control_group, "`");
        Err(PlatformError::invalid(path.as_str(), message.as_str()))
    }
}

/// The view of an activation key.
pub enum KeyView {
    InvocationId(Seq<u8>),
    ControlGroup(Seq<char>),
}

/// The view of an activation key.
pub open spec fn key_view(key: SystemdUnitInstanceKey) -> KeyView {
    match key {
        SystemdUnitInstanceKey::InvocationId(id) => KeyView::InvocationId(id@),
        SystemdUnitInstanceKey::ControlGroup(group) => KeyView::ControlGroup(group@),
    }
}

/// Whether some byte is not zero.
pub open spec fn nonzero(bytes: Seq<u8>) -> bool {
    exists|i: int| 0 <= i < bytes.len() && #[trigger] bytes[i] != 0
}

/// The activation key of a unit: a nonzero invocation identifier, else the
/// control-group path.
pub open spec fn instance_key(
    unit: Seq<char>,
    invocation_id: Option<Seq<u8>>,
    control_group: Option<Seq<char>>,
) -> Result<KeyView, PlatformErrorView> {
    match unit_interface(unit) {
        Err(e) => Err(e),
        Ok(_) => match invocation_id {
            Some(bytes) if nonzero(bytes) => if bytes.len() == 16 {
                Ok(KeyView::InvocationId(bytes))
            } else {
                Err(
                    malformed(
                        resource(unit),
                        "systemd InvocationID must contain exactly 16 bytes, got "@ + decimal_text(
                            bytes.len(),
                        ),
                    ),
                )
            },
            _ => match control_group {
                None => Err(
                    malformed(
                        resource(unit),
                        "systemd exposes neither a nonzero InvocationID nor ControlGroup"@,
                    ),
                ),
                Some(group) => if valid_group(group) {
                    Ok(KeyView::ControlGroup(group))
                } else {
                    Err(group_error(unit, group))
                },
            },
        },
    }
}

/// Whether some byte is not zero.
pub fn has_nonzero(bytes: &[u8]) -> (r: bool)
    ensures
        r == nonzero(bytes@),
{
    let mut i: usize = 0;
    while i < bytes.len()
        invariant
            i <= bytes@.len(),
            forall|j: int| 0 <= j < i ==> bytes@[j] == 0,
        decreases bytes@.len() - i,
    {
        if bytes[i] != 0 {
            assert(bytes@[i as int] != 0);
            return true;
        }
        i = i + 1;
    }
    false
}

/// Sixteen bytes as an array.
fn sixteen(b: &[u8]) -> (out: [u8; 16])
    requires
        b@.len() == 16,
    ensures
        out@ == b@,
{
    let out = [
        b[0],
        b[1],
        b[2],
        b[3],
        b[4],
        b[5],
        b[6],
        b[7],
        b[8],
        b[9],
        b[10],
        b[11],
        b[12],
        b[13],
        b[14],
        b[15],
    ];
    assert(out@ =~= b@);
    out
}

/// The identity of one activation of a unit.
pub fn select_instance_identity(
    unit: &str,
    invocation_id: Option<&[u8]>,
    control_group: Option<&str>,
) -> (r: PlatformResult<SystemdUnitInstanceIdentity>)
    ensures
        ({
            let id = match invocation_id {
                Some(b) => Some(b@),
                None => None,
            };
            let group = match control_group {
                Some(g) => Some(g@),
                None => None,
            };
            match r {
                Ok(identity) => identity.unit@ == unit@ && instance_key(unit@, id, group) == Ok::<
                    KeyView,
                    PlatformErrorView,
                >(key_view(identity.key)),
                Err(e) => instance_key(unit@, id, group) == Err::<KeyView, PlatformErrorView>(e@),
            }
        }),
{
    if let Err(e) = validate_unit_name(unit) {
        return Err(e);
    }
    if let Some(bytes) = invocation_id {
        if has_nonzero(bytes) {
            if bytes.len() != 16 {
                let path = dbus_resource(unit);
                let number = format_u64(bytes.len() as u64);
                let message = cat2(
                    "systemd InvocationID must contain exactly 16 bytes, got ",
                    number.as_str(),
                );
                return Err(PlatformError::invalid(path.as_str(), message.as_str()));
            }
            return Ok(
                SystemdUnitInstanceIdentity {
                    unit: unit.to_owned(),
                    key: SystemdUnitInstanceKey::InvocationId(sixteen(bytes)),
                },
            );
        }
    }
    match control_group {
        None => {
            let path = dbus_resource(unit);
            Err(
                PlatformError::invalid(
                    path.as_str(),
                    "systemd exposes neither a nonzero InvocationID nor ControlGroup",
                ),
            )
        },
        Some(group) => {
            if let Err(e) = validate_control_group(unit, group) {
                return Err(e);
            }
            Ok(
                SystemdUnitInstanceIdentity {
                    unit: unit.to_owned(),
                    key: SystemdUnitInstanceKey::ControlGroup(group.to_owned()),
                },
            )
        },
    }
}

/// Activations with different invocation identifiers are told apart, whatever
/// their name and group.
pub proof fn activations_are_told_apart(
    unit: Seq<char>,
    a: Seq<u8>,
    b: Seq<u8>,
    group: Option<Seq<char>>,
)
    requires
        nonzero(a),
        nonzero(b),
        a != b,
        instance_key(unit, Some(a), group) is Ok,
        instance_key(unit, Some(b), group) is Ok,
    ensures
        instance_key(unit, Some(a), group) != instance_key(unit, Some(b), group),
{
}

/// Whether bit `i` of a byte is set.
pub open spec fn bit_set(b: u8, i: u32) -> bool {
    b & (1u8 << i) != 0
}

/// Whether a mask holds a CPU.
pub open spec fn mask_holds(bytes: Seq<u8>, cpu: int) -> bool {
    0 <= cpu && cpu / 8 < bytes.len() && bit_set(bytes[cpu / 8], (cpu % 8) as u32)
}

/// Whether a mask is that of a CPU set: it holds these CPUs, and ends with the
/// byte of the largest one.
pub open spec fn is_mask_of(bytes: Seq<u8>, cpus: Set<u32>) -> bool {
    &&& forall|c: u32|
        #![trigger cpus.contains(c)]
        cpus.contains(c) <==> mask_holds(bytes, c as int)
    &&& bytes.len() <= 0x2000_0000
    &&& bytes.len() > 0 ==> bytes.last() != 0
}

proof fn set_bit(b: u8, i: u32)
    requires
        i < 8,
    ensures
        forall|j: u32| #![trigger bit_set(b, j)] j < 8 ==> (bit_set(b | (1u8 << i), j) <==> bit_set(b, j) || i == j),
        b | (1u8 << i) != 0,
{
    assert forall|j: u32| #![trigger bit_set(b, j)] j < 8 implies (bit_set(b | (1u8 << i), j) <==> bit_set(b, j) || i == j) by {
        assert(((b | (1u8 << i)) & (1u8 << j) != 0) <==> (b & (1u8 << j) != 0 || i == j)) by (bit_vector)
            requires
                i < 8,
                j < 8,
        ;
    }
    assert(b | (1u8 << i) != 0) by (bit_vector)
        requires
            i < 8,
    ;
}

proof fn zero_has_no_bit(i: u32)
    requires
        i < 8,
    ensures
        !bit_set(0u8, i),
{
    assert(0u8 & (1u8 << i) == 0) by (bit_vector)
        requires
            i < 8,
    ;
}

/// The mask of a CPU set, as the bus takes it.
pub fn encode_cpu_mask(cpus: &CpuIds) -> (bytes: Vec<u8>)
    ensures
        is_mask_of(bytes@, cpus@),
        cpus@ == Set::<u32>::empty() <==> bytes@.len() == 0,
{
    let n: usize = cpus.len();
    let mut bytes: Vec<u8> = Vec::new();
    if n == 0 {
        proof {
            assert forall|c: u32| #![trigger cpus@.contains(c)] cpus@.contains(c) <==> mask_holds(
                bytes@,
                c as int,
            ) by {
                if cpus@.contains(c) {
                    assert(cpus.ids().contains(c));
                }
            }
            assert(cpus@ =~= Set::<u32>::empty());
        }
        return bytes;
    }
    let maximum: u32 = cpus.at(n - 1);
    let count: usize = (maximum / 8 + 1) as usize;
    while bytes.len() < count
        invariant
            bytes@.len() <= count,
            forall|j: int| 0 <= j < bytes@.len() ==> bytes@[j] == 0,
        decreases count - bytes@.len(),
    {
        bytes.push(0);
    }
    let mut i: usize = 0;
    proof {
        assert forall|c: int| !#[trigger] mask_holds(bytes@, c) by {
            if 0 <= c && c / 8 < bytes@.len() {
                zero_has_no_bit((c % 8) as u32);
            }
        }
    }
    while i < n
        invariant
            i <= n,
            n == cpus.ids().len(),
            n > 0,
            maximum == cpus.ids()[n - 1],
            ids_ascending(cpus.ids()),
            bytes@.len() == maximum / 8 + 1,
            forall|c: int|
                #![trigger mask_holds(bytes@, c)]
                mask_holds(bytes@, c) <==> exists|j: int| 0 <= j < i && #[trigger] cpus.ids()[j] == c,
            i == n ==> bytes@.last() != 0,
        decreases n - i,
    {
        let cpu: u32 = cpus.at(i);
        let ghost before = bytes@;
        proof {
            assert(cpu <= maximum);
            assert(cpu / 8 <= maximum / 8);
        }
        let at: usize = (cpu / 8) as usize;
        let bit: u32 = cpu % 8;
        let old_byte: u8 = bytes[at];
        bytes.set(at, old_byte | (1u8 << bit));
        proof {
            set_bit(old_byte, bit);
            assert forall|c: int|
                #![trigger mask_holds(bytes@, c)]
                mask_holds(bytes@, c) <==> exists|j: int|
                    0 <= j < i + 1 && #[trigger] cpus.ids()[j] == c by {
                assert(mask_holds(before, c) <==> exists|j: int|
                    0 <= j < i && #[trigger] cpus.ids()[j] == c);
                if 0 <= c && c / 8 < bytes@.len() {
                    let j = (c % 8) as u32;
                    if c / 8 == at {
                        assert(bit_set(old_byte, j) || !bit_set(old_byte, j));
                        assert(bytes@[c / 8] == old_byte | (1u8 << bit));
                        assert(c == cpu <==> j == bit);
                    } else {
                        assert(bytes@[c / 8] == before[c / 8]);
                    }
                }
                assert(mask_holds(bytes@, c) <==> mask_holds(before, c) || c == cpu);
                if mask_holds(before, c) {
                    let k = choose|k: int| 0 <= k < i && #[trigger] cpus.ids()[k] == c;
                    assert(cpus.ids()[k] == c);
                }
                if c == cpu {
                    assert(cpus.ids()[i as int] == c);
                }
            }
        }
        i = i + 1;
    }
    proof {
        assert(cpus@.contains(cpus.ids()[0])) by {
            assert(cpus.ids().contains(cpus.ids()[0]));
        }
        assert forall|c: u32| #![trigger cpus@.contains(c)] cpus@.contains(c) <==> mask_holds(
            bytes@,
            c as int,
        ) by {
            if cpus@.contains(c) {
                assert(cpus.ids().contains(c));
                let j = choose|j: int| 0 <= j < cpus.ids().len() && cpus.ids()[j] == c;
                assert(cpus.ids()[j] == c as int);
            }
            if mask_holds(bytes@, c as int) {
                let j = choose|j: int| 0 <= j < n && #[trigger] cpus.ids()[j] == c as int;
                assert(cpus.ids().contains(c));
            }
        }
    }
    bytes
}

/// The CPUs of one byte of a mask.
pub open spec fn byte_cpus(byte: u8, index: int) -> Set<u32> {
    Set::new(|c: u32| c as int / 8 == index && bit_set(byte, c % 8))
}

/// The CPUs of the first `n` bytes of a mask; the first byte out of range
/// decides.
pub open spec fn mask_bytes(unit: Seq<char>, bytes: Seq<u8>, n: nat) -> Result<
    Set<u32>,
    PlatformErrorView,
>
    decreases n,
{
    if n == 0 {
        Ok(Set::empty())
    } else {
        match mask_bytes(unit, bytes, (n - 1) as nat) {
            Err(e) => Err(e),
            Ok(before) => if bytes[n - 1] == 0 {
                Ok(before)
            } else if n - 1 > u32::MAX {
                Err(malformed(resource(unit), "AllowedCPUs mask is too large: "@ + OUT_OF_RANGE@))
            } else if n - 1 >= 0x2000_0000 {
                Err(malformed(resource(unit), "AllowedCPUs CPU index overflow"@))
            } else {
                Ok(before.union(byte_cpus(bytes[n - 1], n - 1)))
            },
        }
    }
}

/// The CPUs of a mask, or why it makes no sense.
pub open spec fn decoded_mask(unit: Seq<char>, bytes: Seq<u8>) -> Result<
    Set<u32>,
    PlatformErrorView,
> {
    match mask_bytes(unit, bytes, bytes.len()) {
        Err(e) => Err(e),
        Ok(set) => if set == Set::<u32>::empty() {
            Err(malformed(resource(unit), "nonempty AllowedCPUs byte array contains no CPUs"@))
        } else {
            Ok(set)
        },
    }
}

/// A byte out of range decides however many follow.
proof fn mask_error_stands(unit: Seq<char>, bytes: Seq<u8>, n: nat, k: nat)
    requires
        n <= k,
        mask_bytes(unit, bytes, n) is Err,
    ensures
        mask_bytes(unit, bytes, k) == mask_bytes(unit, bytes, n),
    decreases k,
{
    if n < k {
        mask_error_stands(unit, bytes, n, (k - 1) as nat);
    }
}

/// Adds the CPUs of one byte.
fn take_byte(cpus: &mut CpuIds, byte: u8, index: u32)
    requires
        index < 0x2000_0000,
    ensures
        final(cpus)@ == old(cpus)@.union(byte_cpus(byte, index as int)),
{
    let ghost before = cpus@;
    let base: u32 = index * 8;
    let mut bit: u32 = 0;
    assert(cpus@ =~= before.union(
        Set::new(|c: u32| c as int / 8 == index && c % 8 < bit && bit_set(byte, c % 8)),
    ));
    while bit < 8
        invariant
            bit <= 8,
            index < 0x2000_0000,
            base == index * 8,
            cpus@ == before.union(
                Set::new(|c: u32| c as int / 8 == index && c % 8 < bit && bit_set(byte, c % 8)),
            ),
        decreases 8 - bit,
    {
        let ghost prior = cpus@;
        if byte & (1u8 << bit) != 0 {
            cpus.insert(base + bit);
        }
        proof {
            let next = before.union(
                Set::new(|c: u32| c as int / 8 == index && c % 8 < bit + 1 && bit_set(byte, c % 8)),
            );
            assert forall|c: u32| cpus@.contains(c) <==> next.contains(c) by {
                if c as int / 8 == index && c % 8 == bit {
                    assert(c == base + bit);
                }
            }
            assert(cpus@ =~= next);
        }
        bit = bit + 1;
    }
    assert(cpus@ =~= before.union(byte_cpus(byte, index as int)));
}

/// The CPUs of a mask.
pub fn decode_cpu_mask(unit: &str, bytes: &[u8]) -> (r: PlatformResult<CpuIds>)
    ensures
        match r {
            Ok(s) => decoded_mask(unit@, bytes@) == Ok::<Set<u32>, PlatformErrorView>(s@),
            Err(e) => decoded_mask(unit@, bytes@) == Err::<Set<u32>, PlatformErrorView>(e@),
        },
{
    let path = dbus_resource(unit);
    let mut cpus = CpuIds::new();
    let mut i: usize = 0;
    while i < bytes.len()
        invariant
            i <= bytes@.len(),
            path@ == resource(unit@),
            mask_bytes(unit@, bytes@, i as nat) == Ok::<Set<u32>, PlatformErrorView>(cpus@),
        decreases bytes@.len() - i,
    {
        let byte: u8 = bytes[i];
        if byte != 0 {
            if i as u64 > u32::MAX as u64 {
                let message = cat2("AllowedCPUs mask is too large: ", OUT_OF_RANGE);
                proof {
                    mask_error_stands(unit@, bytes@, (i + 1) as nat, bytes@.len());
                }
                return Err(PlatformError::invalid(path.as_str(), message.as_str()));
            }
            if i >= 0x2000_0000 {
                proof {
                    mask_error_stands(unit@, bytes@, (i + 1) as nat, bytes@.len());
                }
                return Err(
                    PlatformError::invalid(path.as_str(), "AllowedCPUs CPU index overflow"),
                );
            }
            take_byte(&mut cpus, byte, i as u32);
        }
        i = i + 1;
    }
    if cpus.is_empty() {
        return Err(
            PlatformError::invalid(
                path.as_str(),
                "nonempty AllowedCPUs byte array contains no CPUs",
            ),
        );
    }
    Ok(cpus)
}

/// What the bytes of a mask of a CPU set hold, up to a position.
proof fn mask_prefix(unit: Seq<char>, bytes: Seq<u8>, cpus: Set<u32>, n: nat)
    requires
        is_mask_of(bytes, cpus),
        n <= bytes.len(),
    ensures
        mask_bytes(unit, bytes, n) is Ok,
        forall|c: u32| #[trigger]
            mask_bytes(unit, bytes, n)->Ok_0.contains(c) <==> cpus.contains(c) && c as int / 8 < n,
    decreases n,
{
    if n > 0 {
        mask_prefix(unit, bytes, cpus, (n - 1) as nat);
        let before = mask_bytes(unit, bytes, (n - 1) as nat)->Ok_0;
        assert forall|c: u32| #[trigger] mask_bytes(unit, bytes, n)->Ok_0.contains(c)
            <==> cpus.contains(c) && c as int / 8 < n by {
            assert(cpus.contains(c) <==> mask_holds(bytes, c as int));
            assert(before.contains(c) <==> cpus.contains(c) && c as int / 8 < n - 1);
            if bytes[n - 1] == 0 && c as int / 8 == n - 1 {
                zero_has_no_bit(c % 8);
            }
        }
    }
}

/// A CPU set is read back from its mask.
pub proof fn mask_reads_back(unit: Seq<char>, bytes: Seq<u8>, cpus: Set<u32>)
    requires
        is_mask_of(bytes, cpus),
        cpus != Set::<u32>::empty(),
    ensures
        decoded_mask(unit, bytes) == Ok::<Set<u32>, PlatformErrorView>(cpus),
{
    mask_prefix(unit, bytes, cpus, bytes.len());
    let set = mask_bytes(unit, bytes, bytes.len())->Ok_0;
    assert forall|c: u32| set.contains(c) <==> cpus.contains(c) by {
        assert(cpus.contains(c) <==> mask_holds(bytes, c as int));
    }
    assert(set =~= cpus);
}

/// The properties as the bus has them.
#[derive(Debug, PartialEq, Eq)]
pub struct RawUnitProperties {
    pub cpu_weight: u64,
    pub allowed_cpus: Vec<u8>,
}

/// The view of [`RawUnitProperties`].
pub struct RawView {
    pub cpu_weight: u64,
    pub allowed_cpus: Seq<u8>,
}

impl View for RawUnitProperties {
    type V = RawView;

    open spec fn view(&self) -> RawView {
        RawView { cpu_weight: self.cpu_weight, allowed_cpus: self.allowed_cpus@ }
    }
}

/// The weight that a raw one stands for, or why it makes no sense.
pub open spec fn weight_of(unit: Seq<char>, raw: u64) -> Result<Option<u64>, PlatformErrorView> {
    if raw == 0 || raw == UNSET_CPU_WEIGHT {
        Ok(None)
    } else if MIN_CPU_WEIGHT <= raw && raw <= MAX_CPU_WEIGHT {
        Ok(Some(raw))
    } else {
        Err(
            malformed(
                resource(unit),
                "systemd returned invalid CPUWeight "@ + decimal_text(raw as nat),
            ),
        )
    }
}

/// The properties that raw ones stand for, or why they make no sense.
pub open spec fn unit_of(unit: Seq<char>, raw: RawView) -> Result<UnitView, PlatformErrorView> {
    match weight_of(unit, raw.cpu_weight) {
        Err(e) => Err(e),
        Ok(cpu_weight) => if raw.allowed_cpus.len() == 0 {
            Ok(UnitView { cpu_weight, allowed_cpus: None })
        } else {
            match decoded_mask(unit, raw.allowed_cpus) {
                Err(e) => Err(e),
                Ok(set) => Ok(UnitView { cpu_weight, allowed_cpus: Some(set) }),
            }
        },
    }
}

/// The properties that raw ones stand for.
pub fn raw_to_domain(unit: &str, raw: &RawUnitProperties) -> (r: PlatformResult<
    SystemdUnitProperties,
>)
    ensures
        match r {
            Ok(p) => unit_of(unit@, raw@) == Ok::<UnitView, PlatformErrorView>(p@),
            Err(e) => unit_of(unit@, raw@) == Err::<UnitView, PlatformErrorView>(e@),
        },
{
    let cpu_weight: Option<u64> = if raw.cpu_weight == 0 || raw.cpu_weight == UNSET_CPU_WEIGHT {
        None
    } else if MIN_CPU_WEIGHT <= raw.cpu_weight && raw.cpu_weight <= MAX_CPU_WEIGHT {
        Some(raw.cpu_weight)
    } else {
        let path = dbus_resource(unit);
        let number = format_u64(raw.cpu_weight);
        let message = cat2("systemd returned invalid CPUWeight ", number.as_str());
        return Err(PlatformError::invalid(path.as_str(), message.as_str()));
    };
    if raw.allowed_cpus.len() == 0 {
        return Ok(SystemdUnitProperties { cpu_weight, allowed_cpus: None });
    }
    match decode_cpu_mask(unit, raw.allowed_cpus.as_slice()) {
        Err(e) => Err(e),
        Ok(set) => Ok(SystemdUnitProperties { cpu_weight, allowed_cpus: Some(set) }),
    }
}

/// Whether raw properties are those of the given ones.
pub open spec fn is_raw_of(raw: RawView, p: UnitView) -> bool {
    &&& raw.cpu_weight == match p.cpu_weight {
        Some(w) => w,
        None => UNSET_CPU_WEIGHT,
    }
    &&& match p.allowed_cpus {
        Some(set) => is_mask_of(raw.allowed_cpus, set) && (set == Set::<u32>::empty()
            <==> raw.allowed_cpus.len() == 0),
        None => raw.allowed_cpus.len() == 0,
    }
}

/// The raw properties of the given ones. What is not set is reset.
pub fn domain_to_raw(properties: &SystemdUnitProperties) -> (raw: RawUnitProperties)
    ensures
        is_raw_of(raw@, properties@),
{
    RawUnitProperties {
        cpu_weight: match properties.cpu_weight {
            Some(w) => w,
            None => UNSET_CPU_WEIGHT,
        },
        allowed_cpus: match &properties.allowed_cpus {
            Some(set) => encode_cpu_mask(set),
            None => Vec::new(),
        },
    }
}

/// Properties that may be asked for are read back from their raw form.
pub proof fn properties_read_back(unit: Seq<char>, raw: RawView, p: UnitView)
    requires
        is_raw_of(raw, p),
        match p.cpu_weight {
            Some(w) => MIN_CPU_WEIGHT <= w <= MAX_CPU_WEIGHT,
            None => true,
        },
        p.allowed_cpus != Some(Set::<u32>::empty()),
    ensures
        unit_of(unit, raw) == Ok::<UnitView, PlatformErrorView>(p),
{
    match p.allowed_cpus {
        Some(set) => {
            mask_reads_back(unit, raw.allowed_cpus, set);
        },
        None => {},
    }
}

/// Whether properties are those that were asked for.
pub fn unit_matches_desired(actual: &SystemdUnitProperties, desired: &SystemdUnitProperties) -> (r:
    bool)
    ensures
        r == (actual@ == desired@),
{
    actual.cpu_weight == desired.cpu_weight && match (&actual.allowed_cpus, &desired.allowed_cpus) {
        (Some(a), Some(b)) => a.same_as(b),
        (None, None) => true,
        _ => false,
    }
}

/// Why properties are refused, if so. Everything is checked before anything is
/// changed.
pub open spec fn properties_error(
    desired: UnitView,
    online_path: Seq<char>,
    online: Result<Set<u32>, PlatformErrorView>,
) -> Option<PlatformErrorView> {
    if desired.cpu_weight is Some && !(MIN_CPU_WEIGHT <= desired.cpu_weight->0
        && desired.cpu_weight->0 <= MAX_CPU_WEIGHT) {
        Some(
            malformed(
                "dbus/systemd/CPUWeight"@,
                "CPUWeight "@ + decimal_text(desired.cpu_weight->0 as nat)
                    + " is outside 1..=10000"@,
            ),
        )
    } else {
        match desired.allowed_cpus {
            None => None,
            Some(cpus) => if cpus == Set::<u32>::empty() {
                Some(malformed("dbus/systemd/AllowedCPUs"@, "AllowedCPUs must not be empty"@))
            } else {
                match online {
                    Err(e) => Some(e),
                    Ok(all) => if cpus.subset_of(all) {
                        None
                    } else {
                        Some(
                            malformed(
                                online_path,
                                "AllowedCPUs contains an offline or nonexistent CPU"@,
                            ),
                        )
                    },
                }
            },
        }
    }
}

/// The view of what was read of the online CPUs.
pub open spec fn online_view(r: PlatformResult<CpuIds>) -> Result<Set<u32>, PlatformErrorView> {
    match r {
        Ok(s) => Ok(s@),
        Err(e) => Err(e@),
    }
}

/// Checks properties before anything is changed.
pub fn validate_desired_properties(
    desired: &SystemdUnitProperties,
    online_path: &str,
    online: &PlatformResult<CpuIds>,
) -> (r: PlatformResult<()>)
    ensures
        match r {
            Ok(()) => properties_error(desired@, online_path@, online_view(*online)) is None,
            Err(e) => properties_error(desired@, online_path@, online_view(*online)) == Some(e@),
        },
{
    if let Some(weight) = desired.cpu_weight {
        if weight < MIN_CPU_WEIGHT || weight > MAX_CPU_WEIGHT {
            let number = format_u64(weight);
            let message = cat3("CPUWeight ", number.as_str(), " is outside 1..=10000");
            return Err(PlatformError::invalid("dbus/systemd/CPUWeight", message.as_str()));
        }
    }
    if let Some(cpus) = &desired.allowed_cpus {
        if cpus.is_empty() {
            return Err(
                PlatformError::invalid(
                    "dbus/systemd/AllowedCPUs",
                    "AllowedCPUs must not be empty",
                ),
            );
        }
        match online {
            Err(e) => {
                return Err(copy_error(e));
            },
            Ok(all) => {
                if !cpus.is_subset(all) {
                    return Err(
                        PlatformError::invalid(
                            online_path,
                            "AllowedCPUs contains an offline or nonexistent CPU",
                        ),
                    );
                }
            },
        }
    }
    Ok(())
}

/// The error of a transaction: that of the failed step, and where undoing
/// failed too, both.
pub open spec fn rollback_error(
    unit: Seq<char>,
    failure: PlatformErrorView,
    rollback: Option<PlatformErrorView>,
) -> PlatformErrorView {
    match rollback {
        None => failure,
        Some(r) => malformed(
            resource(unit),
            "systemd property transaction failed ("@ + failure.text()
                + "); rollback also failed: "@ + r.text(),
        ),
    }
}

/// The view of a step without a value.
pub open spec fn step_error(r: PlatformResult<()>) -> Option<PlatformErrorView> {
    match r {
        Ok(()) => None,
        Err(e) => Some(e@),
    }
}

/// The error of a transaction.
pub fn with_systemd_rollback(unit: &str, failure: PlatformError, rollback: PlatformResult<()>) -> (e:
    PlatformError)
    ensures
        e@ == rollback_error(unit@, failure@, step_error(rollback)),
{
    match rollback {
        Ok(()) => failure,
        Err(r) => {
            let path = dbus_resource(unit);
            let a = failure.message();
            let b = r.message();
            let message = cat4(
                "systemd property transaction failed (",
                a.as_str(),
                "); rollback also failed: ",
                b.as_str(),
            );
            PlatformError::invalid(path.as_str(), message.as_str())
        },
    }
}

/// Where a change of properties stands.
#[derive(Debug)]
pub enum UnitPhase {
    /// The properties from before are being read.
    ReadOriginal,
    /// The new ones are being set.
    Apply { original: RawUnitProperties },
    /// They are being read back.
    ReadBack { original: RawUnitProperties },
    /// Those from before are being set again.
    Undo { failure: PlatformError },
    Finished,
}

/// The view of [`UnitPhase`].
pub enum PhaseView {
    ReadOriginal,
    Apply { original: RawView },
    ReadBack { original: RawView },
    Undo { failure: PlatformErrorView },
    Finished,
}

impl View for UnitPhase {
    type V = PhaseView;

    open spec fn view(&self) -> PhaseView {
        match *self {
            UnitPhase::ReadOriginal => PhaseView::ReadOriginal,
            UnitPhase::Apply { original } => PhaseView::Apply { original: original@ },
            UnitPhase::ReadBack { original } => PhaseView::ReadBack { original: original@ },
            UnitPhase::Undo { failure } => PhaseView::Undo { failure: failure@ },
            UnitPhase::Finished => PhaseView::Finished,
        }
    }
}

/// What has to be done next.
#[derive(Debug)]
pub enum UnitAction {
    Read,
    Write(RawUnitProperties),
    Finish(PlatformResult<SystemdUnitProperties>),
}

/// One change of the properties of a unit.
#[derive(Debug)]
pub struct UnitTransaction {
    pub unit: String,
    pub desired: SystemdUnitProperties,
    pub phase: UnitPhase,
}

/// The failure of a read-back that shows something else.
pub open spec fn readback_differs(
    unit: Seq<char>,
    desired: UnitView,
    actual: UnitView,
) -> PlatformErrorView {
    malformed(
        resource(unit),
        "systemd readback differs from request: requested "@ + unit_text(desired) + ", got "@
            + unit_text(actual),
    )
}

/// What was read, as properties.
pub open spec fn read_unit(unit: Seq<char>, r: PlatformResult<RawUnitProperties>) -> Result<
    UnitView,
    PlatformErrorView,
> {
    match r {
        Err(e) => Err(e@),
        Ok(raw) => unit_of(unit, raw@),
    }
}

/// What was read, by its view.
pub open spec fn raw_view(r: PlatformResult<RawUnitProperties>) -> Result<
    RawView,
    PlatformErrorView,
> {
    match r {
        Ok(raw) => Ok(raw@),
        Err(e) => Err(e@),
    }
}

/// Whether an action sets the given raw properties.
pub open spec fn writes(action: UnitAction, raw: RawView) -> bool {
    match action {
        UnitAction::Write(r) => r@ == raw,
        _ => false,
    }
}

/// Whether an action ends the change with an error.
pub open spec fn fails(action: UnitAction, e: PlatformErrorView) -> bool {
    match action {
        UnitAction::Finish(Err(x)) => x@ == e,
        _ => false,
    }
}

/// The view of [`UnitTransaction`].
pub struct ChangeView {
    pub unit: Seq<char>,
    pub desired: UnitView,
    pub phase: PhaseView,
}

impl View for UnitTransaction {
    type V = ChangeView;

    open spec fn view(&self) -> ChangeView {
        ChangeView { unit: self.unit@, desired: self.desired@, phase: self.phase@ }
    }
}

/// Whether the properties from before were taken over and the new ones are set.
pub open spec fn original_taken(
    t: ChangeView,
    read: Result<RawView, PlatformErrorView>,
    after: ChangeView,
    action: UnitAction,
) -> bool {
    &&& after.unit == t.unit
    &&& after.desired == t.desired
    &&& match read {
        Err(e) => fails(action, e) && after.phase == PhaseView::Finished,
        Ok(raw) => {
            &&& after.phase == (PhaseView::Apply { original: raw })
            &&& action is Write
            &&& is_raw_of(action->Write_0@, t.desired)
        },
    }
}

/// Whether it was taken over that the new properties were set, or refused.
pub open spec fn change_taken(
    t: ChangeView,
    refused: Option<PlatformErrorView>,
    after: ChangeView,
    action: UnitAction,
) -> bool {
    &&& after.unit == t.unit
    &&& after.desired == t.desired
    &&& match refused {
        Some(e) => fails(action, e) && after.phase == PhaseView::Finished,
        None => action is Read && after.phase == (PhaseView::ReadBack {
            original: t.phase->Apply_original,
        }),
    }
}

/// Whether the read-back was taken over: it shows what was asked for, or the
/// properties from before are set again.
pub open spec fn read_back_taken(
    t: ChangeView,
    read: Result<UnitView, PlatformErrorView>,
    after: ChangeView,
    action: UnitAction,
) -> bool {
    &&& after.unit == t.unit
    &&& after.desired == t.desired
    &&& match read {
        Err(e) => {
            &&& writes(action, t.phase->ReadBack_original)
            &&& after.phase == (PhaseView::Undo { failure: e })
        },
        Ok(actual) => if actual == t.desired {
            &&& action is Finish
            &&& action->Finish_0 is Ok
            &&& action->Finish_0->Ok_0@ == actual
            &&& after.phase == PhaseView::Finished
        } else {
            &&& writes(action, t.phase->ReadBack_original)
            &&& after.phase == (PhaseView::Undo {
                failure: readback_differs(t.unit, t.desired, actual),
            })
        },
    }
}

/// Whether the end of the undoing was taken over.
pub open spec fn undo_taken(
    t: ChangeView,
    refused: Option<PlatformErrorView>,
    after: ChangeView,
    action: UnitAction,
) -> bool {
    &&& after.unit == t.unit
    &&& after.desired == t.desired
    &&& after.phase == PhaseView::Finished
    &&& fails(action, rollback_error(t.unit, t.phase->Undo_failure, refused))
}

/// A copy of raw properties.
fn copy_raw(raw: &RawUnitProperties) -> (out: RawUnitProperties)
    ensures
        out@ == raw@,
{
    let mut allowed_cpus: Vec<u8> = Vec::new();
    let mut i: usize = 0;
    while i < raw.allowed_cpus.len()
        invariant
            i <= raw.allowed_cpus@.len(),
            allowed_cpus@ == raw.allowed_cpus@.take(i as int),
        decreases raw.allowed_cpus@.len() - i,
    {
        allowed_cpus.push(raw.allowed_cpus[i]);
        i = i + 1;
        assert(allowed_cpus@ =~= raw.allowed_cpus@.take(i as int));
    }
    assert(raw.allowed_cpus@.take(i as int) =~= raw.allowed_cpus@);
    RawUnitProperties { cpu_weight: raw.cpu_weight, allowed_cpus }
}

/// Why a change is refused, if so.
pub open spec fn change_error(
    unit: Seq<char>,
    desired: UnitView,
    online_path: Seq<char>,
    online: Result<Set<u32>, PlatformErrorView>,
) -> Option<PlatformErrorView> {
    match unit_interface(unit) {
        Err(e) => Some(e),
        Ok(_) => properties_error(desired, online_path, online),
    }
}

impl UnitTransaction {
    /// Starts a change. Its first action is to read the properties from before.
    pub fn begin(
        unit: &str,
        desired: &SystemdUnitProperties,
        online_path: &str,
        online: &PlatformResult<CpuIds>,
    ) -> (r: PlatformResult<UnitTransaction>)
        ensures
            match r {
                Ok(t) => {
                    &&& change_error(unit@, desired@, online_path@, online_view(*online)) is None
                    &&& t.unit@ == unit@
                    &&& t.desired@ == desired@
                    &&& t.phase@ == PhaseView::ReadOriginal
                },
                Err(e) => change_error(unit@, desired@, online_path@, online_view(*online)) == Some(
                    e@,
                ),
            },
    {
        if let Err(e) = validate_unit_name(unit) {
            return Err(e);
        }
        if let Err(e) = validate_desired_properties(desired, online_path, online) {
            return Err(e);
        }
        Ok(
            UnitTransaction {
                unit: unit.to_owned(),
                desired: desired.duplicate(),
                phase: UnitPhase::ReadOriginal,
            },
        )
    }

    /// Takes over the properties from before and sets the new ones.
    pub fn original_read(&mut self, result: PlatformResult<RawUnitProperties>) -> (action: UnitAction)
        ensures
            original_taken(old(self)@, raw_view(result), final(self)@, action),
    {
        match result {
            Err(e) => {
                self.phase = UnitPhase::Finished;
                UnitAction::Finish(Err(e))
            },
            Ok(original) => {
                self.phase = UnitPhase::Apply { original };
                UnitAction::Write(domain_to_raw(&self.desired))
            },
        }
    }

    /// Takes over that the new properties were set, and reads them back. A
    /// refused change changed nothing.
    pub fn applied(&mut self, result: PlatformResult<()>) -> (action: UnitAction)
        requires
            old(self).phase@ is Apply,
        ensures
            change_taken(old(self)@, step_error(result), final(self)@, action),
    {
        match result {
            Err(e) => {
                self.phase = UnitPhase::Finished;
                UnitAction::Finish(Err(e))
            },
            Ok(()) => {
                let original = match &self.phase {
                    UnitPhase::Apply { original } => copy_raw(original),
                    _ => RawUnitProperties { cpu_weight: 0, allowed_cpus: Vec::new() },
                };
                self.phase = UnitPhase::ReadBack { original };
                UnitAction::Read
            },
        }
    }

    /// Takes over the read-back: the change is done where it shows what was
    /// asked for, else the properties from before are set again.
    pub fn read_back(&mut self, result: PlatformResult<RawUnitProperties>) -> (action: UnitAction)
        requires
            old(self).phase@ is ReadBack,
        ensures
            read_back_taken(
                old(self)@,
                read_unit(old(self).unit@, result),
                final(self)@,
                action,
            ),
    {
        let original = match &self.phase {
            UnitPhase::ReadBack { original } => copy_raw(original),
            _ => RawUnitProperties { cpu_weight: 0, allowed_cpus: Vec::new() },
        };
        let failure = match result {
            Err(e) => e,
            Ok(raw) => match raw_to_domain(self.unit.as_str(), &raw) {
                Err(e) => e,
                Ok(actual) => {
                    if unit_matches_desired(&actual, &self.desired) {
                        self.phase = UnitPhase::Finished;
                        return UnitAction::Finish(Ok(actual));
                    }
                    let path = dbus_resource(self.unit.as_str());
                    let requested = show_unit(&self.desired);
                    let got = show_unit(&actual);
                    let message = cat4(
                        "systemd readback differs from request: requested ",
                        requested.as_str(),
                        ", got ",
                        got.as_str(),
                    );
                    PlatformError::invalid(path.as_str(), message.as_str())
                },
            },
        };
        self.phase = UnitPhase::Undo { failure };
        UnitAction::Write(original)
    }

    /// Takes over that the properties from before were set again.
    pub fn undone(&mut self, result: PlatformResult<()>) -> (action: UnitAction)
        requires
            old(self).phase@ is Undo,
        ensures
            undo_taken(old(self)@, step_error(result), final(self)@, action),
    {
        let failure = match &self.phase {
            UnitPhase::Undo { failure } => copy_error(failure),
            _ => PlatformError::Unsupported("systemd property transaction"),
        };
        self.phase = UnitPhase::Finished;
        UnitAction::Finish(Err(with_systemd_rollback(self.unit.as_str(), failure, result)))
    }
}

/// The processes of a unit, each once, in ascending order.
pub fn unit_process_ids(pids: &Vec<u32>) -> (out: Vec<u32>)
    ensures
        ids_ascending(out@),
        out@.to_set() == pids@.to_set(),
{
    CpuIds::from_ids(pids).to_vec()
}

/// What a failed call on the bus becomes.
pub open spec fn bus_failure(operation: Seq<char>, source: IoView) -> PlatformErrorView {
    PlatformErrorView::Io { operation, path: "dbus/org.freedesktop.systemd1"@, source }
}

/// The failure where the thread that owns the connection is gone.
pub fn owner_unavailable(operation: &'static str) -> (e: PlatformError)
    ensures
        e@ == bus_failure(
            operation@,
            IoView {
                kind: IoKind::BrokenPipe,
                code: None,
                message: "systemd D-Bus owner thread is unavailable"@,
            },
        ),
{
    PlatformError::io(
        operation,
        "dbus/org.freedesktop.systemd1",
        IoFailure {
            kind: IoKind::BrokenPipe,
            code: None,
            message: "systemd D-Bus owner thread is unavailable".to_owned(),
        },
    )
}

/// The failure where too many requests wait for the thread that owns the
/// connection.
pub fn owner_queue_full(operation: &'static str) -> (e: PlatformError)
    ensures
        e@ == bus_failure(
            operation@,
            IoView {
                kind: IoKind::WouldBlock,
                code: None,
                message: "systemd D-Bus owner request queue is full"@,
            },
        ),
{
    PlatformError::io(
        operation,
        "dbus/org.freedesktop.systemd1",
        IoFailure {
            kind: IoKind::WouldBlock,
            code: None,
            message: "systemd D-Bus owner request queue is full".to_owned(),
        },
    )
}

/// What became of handing a request to the thread that owns the connection.
#[derive(Clone, Copy, Debug, PartialEq, Eq, Structural)]
pub enum Handover {
    Sent,
    /// Too many requests wait.
    Full,
    /// The thread is gone.
    Closed,
}

/// Whether a request reached the thread that owns the connection, or why not.
pub fn handed_over(operation: &'static str, handover: Handover) -> (r: PlatformResult<()>)
    ensures
        match handover {
            Handover::Sent => r is Ok,
            Handover::Full => r is Err && r->Err_0@ == bus_failure(
                operation@,
                IoView {
                    kind: IoKind::WouldBlock,
                    code: None,
                    message: "systemd D-Bus owner request queue is full"@,
                },
            ),
            Handover::Closed => r is Err && r->Err_0@ == bus_failure(
                operation@,
                IoView {
                    kind: IoKind::BrokenPipe,
                    code: None,
                    message: "systemd D-Bus owner thread is unavailable"@,
                },
            ),
        },
{
    match handover {
        Handover::Sent => Ok(()),
        Handover::Full => Err(owner_queue_full(operation)),
        Handover::Closed => Err(owner_unavailable(operation)),
    }
}

/// Whether a bus error says that a process is in no unit.
pub fn is_no_unit_for_pid(name: &str) -> (r: bool)
    ensures
        r == (name@ == "org.freedesktop.systemd1.NoUnitForPID"@),
{
    same(name, "org.freedesktop.systemd1.NoUnitForPID")
}

/// Whether a bus error says that a property does not exist.
pub fn is_unknown_property(name: &str) -> (r: bool)
    ensures
        r == (name@ == "org.freedesktop.DBus.Error.UnknownProperty"@),
{
    same(name, "org.freedesktop.DBus.Error.UnknownProperty")
}

/// Whether the control group has to be read: there is no usable invocation
/// identifier.
pub fn needs_control_group(invocation_id: Option<&[u8]>) -> (r: bool)
    ensures
        r == match invocation_id {
            Some(b) => !nonzero(b@),
            None => true,
        },
{
    match invocation_id {
        Some(b) => !has_nonzero(b),
        None => true,
    }
}

/// Checks that the unit that was found is the one that was asked for.
pub fn check_unit_identity(unit: &str, actual: &str) -> (r: PlatformResult<()>)
    ensures
        match r {
            Ok(()) => actual@ == unit@,
            Err(e) => actual@ != unit@ && e@ == malformed(
                resource(unit@),
                "resolved unit identity `"@ + actual@ + "` differs from `"@ + unit@ + "`"@,
            ),
        },
{
    if same(actual, unit) {
        return Ok(());
    }
    let path = dbus_resource(unit);
    let message = cat5("resolved unit identity `", actual, "` differs from `", unit, "`");
    Err(PlatformError::invalid(path.as_str(), message.as_str()))
}

} // verus!
