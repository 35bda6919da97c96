//! Phylum API routes, job identifiers and groups.

pub mod endpoints;
pub mod job;
pub mod project;
pub mod user_settings;

use vstd::prelude::*;

use crate::text::{hex_digit, hex_digits, hex_digits_of, push_range, string_of};

verus! {

/// The error `uuid` reports for a string that is no UUID.
#[verifier::external_type_specification]
#[verifier::external_body]
pub struct ExUuidError(uuid::Error);

/// The 128-bit value of the UUID that `uuid::Uuid::parse_str` reads from
/// `input`, or `None` where it rejects the input.
pub uninterp spec fn uuid_parsed(input: Seq<char>) -> Option<u128>;

/// Whether `c` is a hexadecimal digit, in either case.
pub open spec fn is_hex_char(c: char) -> bool {
    ('0' <= c <= '9') || ('a' <= c <= 'f') || ('A' <= c <= 'F')
}

/// The value of a hexadecimal digit.
pub open spec fn hex_char_value(c: char) -> nat {
    if '0' <= c <= '9' {
        ((c as int) - ('0' as int)) as nat
    } else if 'a' <= c <= 'f' {
        ((c as int) - ('a' as int) + 10) as nat
    } else {
        ((c as int) - ('A' as int) + 10) as nat
    }
}

/// The number hexadecimal digits spell, most significant first.
pub open spec fn hex_number(d: Seq<char>) -> nat
    decreases d.len(),
{
    if d.len() == 0 {
        0
    } else {
        hex_number(d.drop_last()) * 16 + hex_char_value(d.last())
    }
}

/// The 32 digits of a UUID in its simple form (32 hexadecimal digits) or
/// its hyphenated form (`8-4-4-4-12`); `None` for any other text.
pub open spec fn uuid_digits(s: Seq<char>) -> Option<Seq<char>> {
    if s.len() == 32 && forall|i: int| 0 <= i < 32 ==> is_hex_char(#[trigger] s[i]) {
        Some(s)
    } else if s.len() == 36 && s[8] == '-' && s[13] == '-' && s[18] == '-' && s[23] == '-' {
        let d = s.subrange(0, 8) + s.subrange(9, 13) + s.subrange(14, 18) + s.subrange(19, 23) + s.subrange(
            24,
            36,
        );
        if forall|i: int| 0 <= i < 32 ==> is_hex_char(#[trigger] d[i]) {
            Some(d)
        } else {
            None
        }
    } else {
        None
    }
}

/// Calls `uuid::Uuid::parse_str` and reads the result with `as_u128`.
/// Trusted: the value (or the rejection) is the one `uuid_parsed` names for
/// the input; and, as `uuid`'s parser shows, the simple and hyphenated forms
/// (hexadecimal digits in either case) are accepted, their digits read as
/// one big-endian number. The braced and URN forms it also takes are left
/// to the name.
#[verifier::external_body]
fn uuid_parse_str(input: &str) -> (r: Result<u128, uuid::Error>)
    ensures
        r is Ok <==> uuid_parsed(input@) is Some,
        r matches Ok(v) ==> uuid_parsed(input@) == Some(v),
        uuid_digits(input@) is Some ==> r is Ok,
        r matches Ok(v) ==> (uuid_digits(input@) is Some ==> v as nat == hex_number(uuid_digits(input@)->0)),
{
    let u = uuid::Uuid::parse_str(input)?;
    Ok(u.as_u128())
}

/// The hyphenated form `8-4-4-4-12` of 32 hexadecimal digits.
pub open spec fn hyphenated(h: Seq<char>) -> Seq<char> {
    h.subrange(0, 8) + seq!['-'] + h.subrange(8, 12) + seq!['-'] + h.subrange(12, 16) + seq!['-']
        + h.subrange(16, 20) + seq!['-'] + h.subrange(20, 32)
}

/// Identifier of an analysis job (a UUID).
#[derive(Clone, Copy, Debug, PartialEq, Eq, Structural)]
pub struct JobId {
    pub value: u128,
}

impl JobId {
    /// Parses a UUID string.
    pub fn parse_str(input: &str) -> (r: Result<JobId, uuid::Error>)
        ensures
            r is Ok <==> uuid_parsed(input@) is Some,
            r matches Ok(id) ==> uuid_parsed(input@) == Some(id.value),
            uuid_digits(input@) matches Some(d) ==> (r matches Ok(id) && id.value as nat == hex_number(d)),
    {
        match uuid_parse_str(input) {
            Ok(v) => Ok(JobId { value: v }),
            Err(e) => Err(e),
        }
    }

    /// The lowercase hyphenated form, as UUIDs are displayed.
    pub fn to_string(&self) -> (s: String)
        ensures
            s@ == hyphenated(hex_digits(self.value as nat, 32)),
    {
        let h = hex_digits_of(self.value, 32);
        proof {
            lemma_hex_digits_len(self.value as nat, 32);
        }
        let mut out: Vec<char> = Vec::new();
        push_range(&mut out, &h, 0, 8);
        out.push('-');
        push_range(&mut out, &h, 8, 12);
        out.push('-');
        push_range(&mut out, &h, 12, 16);
        out.push('-');
        push_range(&mut out, &h, 16, 20);
        out.push('-');
        push_range(&mut out, &h, 20, 32);
        proof {
            assert(out@ =~= hyphenated(h@));
        }
        string_of(&out)
    }
}

/// `hex_digits` yields exactly `count` digits.
pub proof fn lemma_hex_digits_len(n: nat, count: nat)
    ensures
        hex_digits(n, count).len() == count,
    decreases count,
{
    if count > 0 {
        lemma_hex_digits_len(n / 16, (count - 1) as nat);
    }
}

/// Sixteen to the power `c`.
pub open spec fn pow16(c: nat) -> nat
    decreases c,
{
    if c == 0 {
        1
    } else {
        16 * pow16((c - 1) as nat)
    }
}

/// Distinct digit values below sixteen have distinct characters.
proof fn lemma_hex_digit_injective(a: nat, b: nat)
    requires
        a < 16,
        b < 16,
        hex_digit(a) == hex_digit(b),
    ensures
        a == b,
{
    assert(hex_digit(a) as nat == if a < 10 { 48 + a } else { 87 + a });
    assert(hex_digit(b) as nat == if b < 10 { 48 + b } else { 87 + b });
}

/// `count` hexadecimal digits tell apart the numbers below `16^count`.
proof fn lemma_hex_digits_injective(a: nat, b: nat, count: nat)
    requires
        a < pow16(count),
        b < pow16(count),
        hex_digits(a, count) == hex_digits(b, count),
    ensures
        a == b,
    decreases count,
{
    if count > 0 {
        let c1 = (count - 1) as nat;
        let ha = hex_digits(a / 16, c1);
        let hb = hex_digits(b / 16, c1);
        assert(hex_digits(a, count) == ha.push(hex_digit(a % 16)));
        assert(hex_digits(b, count) == hb.push(hex_digit(b % 16)));
        assert(ha == hex_digits(a, count).drop_last());
        assert(hb == hex_digits(b, count).drop_last());
        lemma_hex_digits_len(a / 16, c1);
        lemma_hex_digits_len(b / 16, c1);
        assert(hex_digit(a % 16) == hex_digits(a, count).last());
        lemma_hex_digit_injective(a % 16, b % 16);
        let p = pow16(c1);
        assert(a / 16 < p) by (nonlinear_arith)
            requires
                a < 16 * p,
        ;
        assert(b / 16 < p) by (nonlinear_arith)
            requires
                b < 16 * p,
        ;
        lemma_hex_digits_injective(a / 16, b / 16, c1);
    }
}

/// Distinct job IDs are shown as distinct texts.
pub proof fn law_job_id_text_injective(a: JobId, b: JobId)
    requires
        hyphenated(hex_digits(a.value as nat, 32)) == hyphenated(hex_digits(b.value as nat, 32)),
    ensures
        a == b,
{
    let ha = hex_digits(a.value as nat, 32);
    let hb = hex_digits(b.value as nat, 32);
    lemma_hex_digits_len(a.value as nat, 32);
    lemma_hex_digits_len(b.value as nat, 32);
    let ta = hyphenated(ha);
    let tb = hyphenated(hb);
    assert(ta.subrange(0, 8) == ha.subrange(0, 8));
    assert(tb.subrange(0, 8) == hb.subrange(0, 8));
    assert(ta.subrange(9, 13) == ha.subrange(8, 12));
    assert(tb.subrange(9, 13) == hb.subrange(8, 12));
    assert(ta.subrange(14, 18) == ha.subrange(12, 16));
    assert(tb.subrange(14, 18) == hb.subrange(12, 16));
    assert(ta.subrange(19, 23) == ha.subrange(16, 20));
    assert(tb.subrange(19, 23) == hb.subrange(16, 20));
    assert(ta.subrange(24, 36) == ha.subrange(20, 32));
    assert(tb.subrange(24, 36) == hb.subrange(20, 32));
    assert(ha =~= hb) by {
        assert forall|i: int| 0 <= i < 32 implies ha[i] == hb[i] by {
            if i < 8 {
                assert(ha[i] == ha.subrange(0, 8)[i]);
                assert(hb[i] == hb.subrange(0, 8)[i]);
            } else if i < 12 {
                assert(ha[i] == ha.subrange(8, 12)[i - 8]);
                assert(hb[i] == hb.subrange(8, 12)[i - 8]);
            } else if i < 16 {
                assert(ha[i] == ha.subrange(12, 16)[i - 12]);
                assert(hb[i] == hb.subrange(12, 16)[i - 12]);
            } else if i < 20 {
                assert(ha[i] == ha.subrange(16, 20)[i - 16]);
                assert(hb[i] == hb.subrange(16, 20)[i - 16]);
            } else {
                assert(ha[i] == ha.subrange(20, 32)[i - 20]);
                assert(hb[i] == hb.subrange(20, 32)[i - 20]);
            }
        }
    }
    assert(pow16(32) == 0x1_0000_0000_0000_0000_0000_0000_0000_0000nat) by {
        reveal_with_fuel(pow16, 33);
    }
    lemma_hex_digits_injective(a.value as nat, b.value as nat, 32);
}

/// Group under an organization.
pub struct OrgGroup {
    pub org: String,
    pub name: String,
}

/// Phylum group types.
pub enum Group {
    Legacy(String),
    Org(OrgGroup),
}

impl Group {
    /// Create a group from an optional group name: none without a group,
    /// an organization group when an organization is given.
    pub fn try_new(org: Option<String>, group: Option<String>) -> (r: Option<Group>)
        ensures
            group is None ==> r is None,
            group matches Some(g) ==> match org {
                Some(o) => r matches Some(Group::Org(og)) && og.org@ == o@ && og.name@ == g@,
                None => r matches Some(Group::Legacy(n)) && n@ == g@,
            },
    {
        match group {
            None => None,
            Some(group) => match org {
                Some(org) => Some(Group::Org(OrgGroup { org, name: group })),
                None => Some(Group::Legacy(group)),
            },
        }
    }

    /// Get the group's organization.
    pub fn org(&self) -> (r: Option<&str>)
        ensures
            match self {
                Group::Legacy(_) => r is None,
                Group::Org(og) => r matches Some(o) && o@ == og.org@,
            },
    {
        match self {
            Group::Legacy(_) => None,
            Group::Org(og) => Some(og.org.as_str()),
        }
    }

    /// Get the group's name.
    pub fn name(&self) -> (r: &str)
        ensures
            r@ == match self {
                Group::Legacy(n) => n@,
                Group::Org(og) => og.name@,
            },
    {
        match self {
            Group::Legacy(name) => name.as_str(),
            Group::Org(og) => og.name.as_str(),
        }
    }

    /// Format the group as a single string: `org/name` for organization groups.
    pub fn combined_format(&self) -> (r: String)
        ensures
            r@ == match self {
                Group::Legacy(n) => n@,
                Group::Org(og) => og.org@ + seq!['/'] + og.name@,
            },
    {
        match self {
            Group::Legacy(name) => name.clone(),
            Group::Org(og) => {
                let mut s = og.org.clone();
                s.append("/");
                proof {
                    reveal_strlit("/");
                }
                s.append(og.name.as_str());
                s
            },
        }
    }
}

} // verus!
