//! Case-transformation rules applied to identifiers when they are used as
//! label values.

use vstd::prelude::*;
use vstd::string::StringSliceAdditionalSpecFns;
use vstd::string::StrSliceExecFns;

use crate::text::{push_char, str_eq};
use crate::validation::spec_ascii_bytes;

verus! {

/// A case-renaming convention for identifiers.
#[derive(Debug, Clone, Copy, PartialEq, Eq, Structural)]
pub enum RenameRule {
    LowerCase,
    UpperCase,
    CamelCase,
    SnakeCase,
    ScreamingSnakeCase,
    KebabCase,
    ScreamingKebabCase,
}

/// Whether an ASCII byte is an uppercase letter.
pub open spec fn spec_is_upper(b: u8) -> bool {
    65 <= b && b <= 90
}

/// The ASCII-lowercased form of a byte.
pub open spec fn spec_lower_byte(b: u8) -> u8 {
    if spec_is_upper(b) {
        (b + 32) as u8
    } else {
        b
    }
}

/// The ASCII-uppercased form of a byte.
pub open spec fn spec_upper_byte(b: u8) -> u8 {
    if 97 <= b && b <= 122 {
        (b - 32) as u8
    } else {
        b
    }
}

/// The first `n` output characters of a delimiter-based transformation:
/// every uppercase letter after the first position is preceded by
/// `spacing`, and each letter is lower- or uppercased according to
/// `scream`.
pub open spec fn spec_delimited_prefix(bytes: Seq<u8>, n: int, spacing: char, scream: bool) -> Seq<
    char,
>
    decreases n,
{
    if n <= 0 {
        Seq::<char>::empty()
    } else {
        let prev = spec_delimited_prefix(bytes, n - 1, spacing, scream);
        let sep: Seq<char> = if n - 1 > 0 && spec_is_upper(bytes[n - 1]) {
            seq![spacing]
        } else {
            Seq::<char>::empty()
        };
        let cased = if scream {
            spec_upper_byte(bytes[n - 1])
        } else {
            spec_lower_byte(bytes[n - 1])
        };
        prev + sep + seq![cased as char]
    }
}

/// The transformation of an ASCII identifier under a rule.
pub open spec fn spec_transform(rule: RenameRule, bytes: Seq<u8>) -> Seq<char> {
    match rule {
        RenameRule::LowerCase => Seq::new(bytes.len(), |i: int| spec_lower_byte(bytes[i]) as char),
        RenameRule::UpperCase => Seq::new(bytes.len(), |i: int| spec_upper_byte(bytes[i]) as char),
        RenameRule::CamelCase => seq![spec_lower_byte(bytes[0]) as char] + Seq::new(
            (bytes.len() - 1) as nat,
            |i: int| bytes[i + 1] as char,
        ),
        RenameRule::SnakeCase => spec_delimited_prefix(bytes, bytes.len() as int, '_', false),
        RenameRule::ScreamingSnakeCase => spec_delimited_prefix(
            bytes,
            bytes.len() as int,
            '_',
            true,
        ),
        RenameRule::KebabCase => spec_delimited_prefix(bytes, bytes.len() as int, '-', false),
        RenameRule::ScreamingKebabCase => spec_delimited_prefix(
            bytes,
            bytes.len() as int,
            '-',
            true,
        ),
    }
}

fn is_upper(b: u8) -> (r: bool)
    ensures
        r == spec_is_upper(b),
{
    65 <= b && b <= 90
}

fn lower_byte(b: u8) -> (r: u8)
    ensures
        r == spec_lower_byte(b),
{
    if is_upper(b) {
        b + 32
    } else {
        b
    }
}

fn upper_byte(b: u8) -> (r: u8)
    ensures
        r == spec_upper_byte(b),
{
    if 97 <= b && b <= 122 {
        b - 32
    } else {
        b
    }
}

impl RenameRule {
    /// Parses a rule from its conventional name, e.g. `snake_case`.
    pub fn parse(s: &str) -> (r: Result<RenameRule, &'static str>)
        ensures
            s@ == "lowercase"@ ==> r == Ok::<RenameRule, &'static str>(RenameRule::LowerCase),
            s@ == "UPPERCASE"@ ==> r == Ok::<RenameRule, &'static str>(RenameRule::UpperCase),
            s@ == "camelCase"@ ==> r == Ok::<RenameRule, &'static str>(RenameRule::CamelCase),
            s@ == "snake_case"@ ==> r == Ok::<RenameRule, &'static str>(RenameRule::SnakeCase),
            s@ == "SCREAMING_SNAKE_CASE"@ ==> r == Ok::<RenameRule, &'static str>(
                RenameRule::ScreamingSnakeCase,
            ),
            s@ == "kebab-case"@ ==> r == Ok::<RenameRule, &'static str>(RenameRule::KebabCase),
            s@ == "SCREAMING-KEBAB-CASE"@ ==> r == Ok::<RenameRule, &'static str>(
                RenameRule::ScreamingKebabCase,
            ),
            r is Err ==> s@ != "lowercase"@ && s@ != "UPPERCASE"@ && s@ != "camelCase"@ && s@
                != "snake_case"@ && s@ != "SCREAMING_SNAKE_CASE"@ && s@ != "kebab-case"@ && s@
                != "SCREAMING-KEBAB-CASE"@,
    {
        proof {
            reveal_strlit("lowercase");
            reveal_strlit("UPPERCASE");
            reveal_strlit("camelCase");
            reveal_strlit("snake_case");
            reveal_strlit("SCREAMING_SNAKE_CASE");
            reveal_strlit("kebab-case");
            reveal_strlit("SCREAMING-KEBAB-CASE");
            assert("UPPERCASE"@ != "lowercase"@) by {
                assert("UPPERCASE"@[0] != "lowercase"@[0]);
            }
            assert("camelCase"@ != "lowercase"@) by {
                assert("camelCase"@[0] != "lowercase"@[0]);
            }
            assert("camelCase"@ != "UPPERCASE"@) by {
                assert("camelCase"@[0] != "UPPERCASE"@[0]);
            }
            assert("kebab-case"@ != "snake_case"@) by {
                assert("kebab-case"@[0] != "snake_case"@[0]);
            }
            assert("SCREAMING-KEBAB-CASE"@ != "SCREAMING_SNAKE_CASE"@) by {
                assert("SCREAMING-KEBAB-CASE"@[9] != "SCREAMING_SNAKE_CASE"@[9]);
            }
            assert("lowercase"@.len() == 9 && "UPPERCASE"@.len() == 9 && "camelCase"@.len() == 9
                && "snake_case"@.len() == 10 && "kebab-case"@.len() == 10
                && "SCREAMING_SNAKE_CASE"@.len() == 20 && "SCREAMING-KEBAB-CASE"@.len() == 20);
            assert("snake_case"@ != "lowercase"@ && "snake_case"@ != "UPPERCASE"@ && "snake_case"@
                != "camelCase"@);
            assert("kebab-case"@ != "lowercase"@ && "kebab-case"@ != "UPPERCASE"@ && "kebab-case"@
                != "camelCase"@);
            assert("SCREAMING_SNAKE_CASE"@ != "lowercase"@ && "SCREAMING_SNAKE_CASE"@
                != "UPPERCASE"@ && "SCREAMING_SNAKE_CASE"@ != "camelCase"@
                && "SCREAMING_SNAKE_CASE"@ != "snake_case"@ && "SCREAMING_SNAKE_CASE"@
                != "kebab-case"@);
            assert("SCREAMING-KEBAB-CASE"@ != "lowercase"@ && "SCREAMING-KEBAB-CASE"@
                != "UPPERCASE"@ && "SCREAMING-KEBAB-CASE"@ != "camelCase"@
                && "SCREAMING-KEBAB-CASE"@ != "snake_case"@ && "SCREAMING-KEBAB-CASE"@
                != "kebab-case"@);
        }
        if str_eq(s, "lowercase") {
            Ok(RenameRule::LowerCase)
        } else if str_eq(s, "UPPERCASE") {
            Ok(RenameRule::UpperCase)
        } else if str_eq(s, "camelCase") {
            Ok(RenameRule::CamelCase)
        } else if str_eq(s, "snake_case") {
            Ok(RenameRule::SnakeCase)
        } else if str_eq(s, "SCREAMING_SNAKE_CASE") {
            Ok(RenameRule::ScreamingSnakeCase)
        } else if str_eq(s, "kebab-case") {
            Ok(RenameRule::KebabCase)
        } else if str_eq(s, "SCREAMING-KEBAB-CASE") {
            Ok(RenameRule::ScreamingKebabCase)
        } else {
            Err(
                "Invalid case specified; should be one of: lowercase, UPPERCASE, camelCase, \
                 snake_case, SCREAMING_SNAKE_CASE, kebab-case, SCREAMING-KEBAB-CASE",
            )
        }
    }

    /// Transforms an ASCII identifier according to this rule.
    pub fn transform(self, ident: &str) -> (r: String)
        requires
            ident.spec_bytes().len() > 0,
            spec_ascii_bytes(ident.spec_bytes()),
        ensures
            r@ == spec_transform(self, ident.spec_bytes()),
    {
        let bytes = ident.as_bytes_vec();
        let mut out = String::new();
        match self {
            RenameRule::LowerCase => {
                let mut i: usize = 0;
                while i < bytes.len()
                    invariant
                        bytes@ == ident.spec_bytes(),
                        0 <= i <= bytes@.len(),
                        out@ =~= Seq::new(i as nat, |j: int| spec_lower_byte(bytes@[j]) as char),
                    decreases bytes@.len() - i,
                {
                    push_char(&mut out, lower_byte(bytes[i]) as char);
                    i += 1;
                }
                proof {
                    assert(out@ =~= spec_transform(self, ident.spec_bytes()));
                }
            },
            RenameRule::UpperCase => {
                let mut i: usize = 0;
                while i < bytes.len()
                    invariant
                        bytes@ == ident.spec_bytes(),
                        0 <= i <= bytes@.len(),
                        out@ =~= Seq::new(i as nat, |j: int| spec_upper_byte(bytes@[j]) as char),
                    decreases bytes@.len() - i,
                {
                    push_char(&mut out, upper_byte(bytes[i]) as char);
                    i += 1;
                }
                proof {
                    assert(out@ =~= spec_transform(self, ident.spec_bytes()));
                }
            },
            RenameRule::CamelCase => {
                push_char(&mut out, lower_byte(bytes[0]) as char);
                let mut i: usize = 1;
                while i < bytes.len()
                    invariant
                        bytes@ == ident.spec_bytes(),
                        bytes@.len() > 0,
                        1 <= i <= bytes@.len(),
                        out@ =~= seq![spec_lower_byte(bytes@[0]) as char] + Seq::new(
                            (i - 1) as nat,
                            |j: int| bytes@[j + 1] as char,
                        ),
                    decreases bytes@.len() - i,
                {
                    push_char(&mut out, bytes[i] as char);
                    i += 1;
                }
                proof {
                    assert(out@ =~= spec_transform(self, ident.spec_bytes()));
                }
            },
            RenameRule::SnakeCase => {
                proof {
                    reveal_strlit("_");
                }
                transform_delimited(&mut out, &bytes, "_", false);
            },
            RenameRule::ScreamingSnakeCase => {
                proof {
                    reveal_strlit("_");
                }
                transform_delimited(&mut out, &bytes, "_", true);
            },
            RenameRule::KebabCase => {
                proof {
                    reveal_strlit("-");
                }
                transform_delimited(&mut out, &bytes, "-", false);
            },
            RenameRule::ScreamingKebabCase => {
                proof {
                    reveal_strlit("-");
                }
                transform_delimited(&mut out, &bytes, "-", true);
            },
        }
        out
    }
}

/// Appends the delimiter-based transformation of `bytes` to `out`; `sep` is
/// the one-character separator string.
fn transform_delimited(out: &mut String, bytes: &Vec<u8>, sep: &str, scream: bool)
    requires
        old(out)@.len() == 0,
        sep@.len() == 1,
    ensures
        final(out)@ == spec_delimited_prefix(bytes@, bytes@.len() as int, sep@[0], scream),
{
    let mut i: usize = 0;
    while i < bytes.len()
        invariant
            sep@.len() == 1,
            0 <= i <= bytes@.len(),
            out@ =~= spec_delimited_prefix(bytes@, i as int, sep@[0], scream),
        decreases bytes@.len() - i,
    {
        let b = bytes[i];
        if i > 0 && is_upper(b) {
            out.append(sep);
            proof {
                assert(sep@ =~= seq![sep@[0]]);
            }
        }
        if scream {
            push_char(out, upper_byte(b) as char);
        } else {
            push_char(out, lower_byte(b) as char);
        }
        proof {
            assert(out@ =~= spec_delimited_prefix(bytes@, i + 1 as int, sep@[0], scream));
        }
        i += 1;
    }
}

} // verus!
