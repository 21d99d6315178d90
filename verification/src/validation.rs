//! Validation logic for label and metric names.
//!
//! A valid name is a non-empty ASCII string that starts with an underscore
//! or a lowercase letter and continues with underscores, lowercase letters
//! and digits.

use vstd::prelude::*;

use vstd::string::StringSliceAdditionalSpecFns;
use vstd::string::StrSliceExecFns;

use crate::text::spec_render_nat;
use crate::text::{append_nat, push_char};

verus! {

/// Whether a byte may start a name: an underscore or an ASCII lowercase
/// letter.
pub open spec fn spec_valid_start_name_char(ch: u8) -> bool {
    ch == 95 || (97 <= ch && ch <= 122)
}

/// Whether a byte may occur in a name after the first position: start
/// characters plus ASCII digits.
pub open spec fn spec_valid_name_char(ch: u8) -> bool {
    spec_valid_start_name_char(ch) || (48 <= ch && ch <= 57)
}

/// Whether the byte at position `i` of a name is acceptable there.
pub open spec fn spec_name_byte_ok(bytes: Seq<u8>, i: int) -> bool {
    &&& bytes[i] <= 127
    &&& spec_valid_name_char(bytes[i])
    &&& (i == 0 ==> spec_valid_start_name_char(bytes[i]))
}

/// Whether every byte of a string is ASCII.
pub open spec fn spec_ascii_bytes(bytes: Seq<u8>) -> bool {
    forall|i: int| 0 <= i < bytes.len() ==> #[trigger] bytes[i] <= 127
}

/// Whether a byte string is a valid metric, prefix or label name.
pub open spec fn spec_valid_name(bytes: Seq<u8>) -> bool {
    &&& bytes.len() > 0
    &&& forall|i: int| 0 <= i < bytes.len() ==> spec_name_byte_ok(bytes, i)
}

/// The error reported for the first offending position of a name.
pub open spec fn spec_error_at(bytes: Seq<u8>, i: int) -> ValidationError {
    if bytes[i] > 127 {
        ValidationError::NonAscii { pos: i as usize }
    } else {
        ValidationError::DisallowedChar { pos: i as usize, ch: bytes[i] as char }
    }
}

pub fn is_valid_start_name_char(ch: u8) -> (r: bool)
    ensures
        r == spec_valid_start_name_char(ch),
{
    ch == 95 || (97 <= ch && ch <= 122)
}

pub fn is_valid_name_char(ch: u8) -> (r: bool)
    ensures
        r == spec_valid_name_char(ch),
{
    is_valid_start_name_char(ch) || (48 <= ch && ch <= 57)
}

/// Why a name was rejected.
#[derive(Debug, Clone, Copy, PartialEq, Eq)]
pub enum ValidationError {
    /// The name is empty.
    Empty,
    /// The name holds a non-ASCII byte; `pos` is the first such position.
    NonAscii { pos: usize },
    /// The name holds a disallowed character `ch` at position `pos`.
    DisallowedChar { pos: usize, ch: char },
}

/// The message text for a validation error.
pub open spec fn spec_validation_message(e: ValidationError) -> Seq<char> {
    match e {
        ValidationError::Empty => "name cannot be empty"@,
        ValidationError::NonAscii { pos } => "name contains non-ASCII chars, first at position "@
            + spec_render_nat(pos as nat),
        ValidationError::DisallowedChar { pos, ch } => {
            if pos == 0 {
                "name starts with disallowed char '"@ + seq![ch]
                    + "'; allowed chars are [_a-z]"@
            } else {
                "name contains a disallowed char '"@ + seq![ch] + "' at position "@
                    + spec_render_nat(pos as nat) + "; allowed chars are [_a-z0-9]"@
            }
        },
    }
}

impl ValidationError {
    /// Renders the error as a human-readable message.
    pub fn message(&self) -> (r: String)
        ensures
            r@ == spec_validation_message(*self),
    {
        let mut out = String::new();
        match self {
            ValidationError::Empty => {
                out.append("name cannot be empty");
            },
            ValidationError::NonAscii { pos } => {
                out.append("name contains non-ASCII chars, first at position ");
                append_nat(&mut out, *pos as u128);
            },
            ValidationError::DisallowedChar { pos, ch } => {
                if *pos == 0 {
                    out.append("name starts with disallowed char '");
                    push_char(&mut out, *ch);
                    out.append("'; allowed chars are [_a-z]");
                } else {
                    out.append("name contains a disallowed char '");
                    push_char(&mut out, *ch);
                    out.append("' at position ");
                    append_nat(&mut out, *pos as u128);
                    out.append("; allowed chars are [_a-z0-9]");
                }
            },
        }
        proof {
            assert(out@ =~= spec_validation_message(*self));
        }
        out
    }
}

/// Checks that `name` is a valid metric, prefix or label name, reporting
/// the first offending position otherwise.
pub fn validate_name(name: &str) -> (r: Result<(), ValidationError>)
    ensures
        r is Ok <==> spec_valid_name(name.spec_bytes()),
        name.spec_bytes().len() == 0 ==> r == Err::<(), ValidationError>(ValidationError::Empty),
        (r is Err && name.spec_bytes().len() > 0) ==> exists|i: int|
            {
                &&& 0 <= i < name.spec_bytes().len()
                &&& !(#[trigger] spec_name_byte_ok(name.spec_bytes(), i))
                &&& forall|j: int| 0 <= j < i ==> spec_name_byte_ok(name.spec_bytes(), j)
                &&& r == Err::<(), ValidationError>(spec_error_at(name.spec_bytes(), i))
            },
{
    let bytes = name.as_bytes_vec();
    if bytes.len() == 0 {
        return Err(ValidationError::Empty);
    }
    let mut pos: usize = 0;
    while pos < bytes.len()
        invariant
            bytes@ == name.spec_bytes(),
            0 <= pos <= bytes.len(),
            forall|j: int| 0 <= j < pos ==> spec_name_byte_ok(bytes@, j),
        decreases bytes.len() - pos,
    {
        let ch = bytes[pos];
        if ch > 127 {
            proof {
                assert(!spec_name_byte_ok(bytes@, pos as int));
            }
            return Err(ValidationError::NonAscii { pos });
        }
        let is_disallowed = (pos == 0 && !is_valid_start_name_char(ch)) || !is_valid_name_char(ch);
        if is_disallowed {
            proof {
                assert(!spec_name_byte_ok(bytes@, pos as int));
            }
            return Err(ValidationError::DisallowedChar { pos, ch: ch as char });
        }
        pos += 1;
    }
    Ok(())
}

/// Checks that a label name is valid. Invalid names are ruled out by the
/// contract; use [`validate_name`] to test arbitrary input.
pub fn assert_label_name(name: &str)
    requires
        spec_valid_name(name.spec_bytes()),
{
    match validate_name(name) {
        Ok(()) => (),
        Err(_) => vstd::pervasive::unreached(),
    }
}

/// Same as [`assert_label_name`], but for multiple names.
pub fn assert_label_names(names: &[&str])
    requires
        forall|i: int| 0 <= i < names@.len() ==> spec_valid_name(#[trigger] names@[i].spec_bytes()),
{
    let mut idx: usize = 0;
    while idx < names.len()
        invariant
            forall|i: int|
                0 <= i < names@.len() ==> spec_valid_name(#[trigger] names@[i].spec_bytes()),
        decreases names@.len() - idx,
    {
        let name = names[idx];
        assert_label_name(name);
        idx += 1;
    }
}

/// Checks that a metric name is valid. Invalid names are ruled out by the
/// contract; use [`validate_name`] to test arbitrary input.
pub fn assert_metric_name(name: &str)
    requires
        spec_valid_name(name.spec_bytes()),
{
    match validate_name(name) {
        Ok(()) => (),
        Err(_) => vstd::pervasive::unreached(),
    }
}

/// Checks that a metric prefix is valid. Invalid names are ruled out by the
/// contract; use [`validate_name`] to test arbitrary input.
pub fn assert_metric_prefix(name: &str)
    requires
        spec_valid_name(name.spec_bytes()),
{
    match validate_name(name) {
        Ok(()) => (),
        Err(_) => vstd::pervasive::unreached(),
    }
}

} // verus!
