use vstd::prelude::*;
use crate::err;
use crate::glob_to_regex::{chars_of, push_char};
use crate::json::{Json, json_get, same_text};

verus! {

/// The comparisons of numeric and date conditions.
#[derive(Clone, Copy, Debug, PartialEq, Eq, Structural)]
pub enum CompareFn {
    Eq,
    NEq,
    Lt,
    Lte,
    Gt,
    Gte,
}

/// The modifiers of a condition key: `ForAllValues`, `ForAnyValue` and `IfExists`.
#[derive(Clone, Copy, Debug, PartialEq, Eq, Structural)]
pub struct Flags {
    pub for_all_values: bool,
    pub for_any_value: bool,
    pub if_exists: bool,
}

/// An instant in UTC: seconds since the epoch and the nanoseconds within that second.
#[derive(Clone, Copy, Debug, PartialEq, Eq, Structural)]
pub struct Timestamp {
    pub seconds: i64,
    pub nanos: u32,
}

/// One condition of a policy. Each but `Script` carries the key it reads in the
/// request context, its comparand and its flags.
#[derive(Debug)]
pub enum Condition {
    /// Key, comparand, whether the comparison is case sensitive (if not, the
    /// comparand is already lower-cased), flags.
    StringEquals(String, String, bool, Flags),
    StringNotEquals(String, String, bool, Flags),
    NumericCompare(String, i64, CompareFn, Flags),
    DateCompare(String, Timestamp, CompareFn, Flags),
    BoolEquals(String, bool, Flags),
    /// Key, the decoded bytes, flags.
    BinaryEquals(String, Vec<u8>, Flags),
    /// Key, the text of the CIDR block, flags.
    IpAddress(String, String, Flags),
    NotIpAddress(String, String, Flags),
    /// The source of a script.
    Script(String),
}

/// What a condition is, with its strings seen as character sequences.
pub enum CondView {
    StringEquals(Seq<char>, Seq<char>, bool, Flags),
    StringNotEquals(Seq<char>, Seq<char>, bool, Flags),
    NumericCompare(Seq<char>, i64, CompareFn, Flags),
    DateCompare(Seq<char>, Timestamp, CompareFn, Flags),
    BoolEquals(Seq<char>, bool, Flags),
    BinaryEquals(Seq<char>, Seq<u8>, Flags),
    IpAddress(Seq<char>, Seq<char>, Flags),
    NotIpAddress(Seq<char>, Seq<char>, Flags),
    Script(Seq<char>),
}

impl View for Condition {
    type V = CondView;

    open spec fn view(&self) -> CondView {
        match self {
            Condition::StringEquals(k, o, c, f) => CondView::StringEquals(k@, o@, *c, *f),
            Condition::StringNotEquals(k, o, c, f) => CondView::StringNotEquals(k@, o@, *c, *f),
            Condition::NumericCompare(k, o, op, f) => CondView::NumericCompare(k@, *o, *op, *f),
            Condition::DateCompare(k, o, op, f) => CondView::DateCompare(k@, *o, *op, *f),
            Condition::BoolEquals(k, o, f) => CondView::BoolEquals(k@, *o, *f),
            Condition::BinaryEquals(k, o, f) => CondView::BinaryEquals(k@, o@, *f),
            Condition::IpAddress(k, o, f) => CondView::IpAddress(k@, o@, *f),
            Condition::NotIpAddress(k, o, f) => CondView::NotIpAddress(k@, o@, *f),
            Condition::Script(s) => CondView::Script(s@),
        }
    }
}

/// The views of a list of conditions.
pub open spec fn cond_views(cs: Seq<Condition>) -> Seq<CondView> {
    cs.map_values(|c: Condition| c@)
}

// ---------------------------------------------------------------------------
// What outside code computes

/// What `str::to_lowercase` returns for `s`.
pub uninterp spec fn lower_of(s: Seq<char>) -> Seq<char>;

/// The instant that chrono reads from an RFC 3339 text, in UTC, as seconds and
/// nanoseconds; `None` where chrono refuses the text.
pub uninterp spec fn rfc3339_instant(s: Seq<char>) -> Option<(i64, u32)>;

/// The bytes that the base64 crate decodes from `s` with the standard alphabet;
/// `None` where it refuses the text.
pub uninterp spec fn base64_decoded(s: Seq<char>) -> Option<Seq<u8>>;

/// Whether the cidr crate reads `s` as a CIDR block (IPv4 or IPv6).
pub uninterp spec fn cidr_valid(s: Seq<char>) -> bool;

/// Whether the address `ip` lies in the block `cidr`, as the cidr crate reads and
/// decides them; `None` where either text is not read as such.
pub uninterp spec fn cidr_membership(cidr: Seq<char>, ip: Seq<char>) -> Option<bool>;

/// Relies on `str::to_lowercase`.
#[verifier::external_body]
fn lowercase(s: &str) -> (r: String)
    ensures
        r@ == lower_of(s@),
{
    s.to_lowercase()
}

/// Relies on chrono's `DateTime::parse_from_rfc3339`, then `timestamp` and
/// `timestamp_subsec_nanos` of the instant.
#[verifier::external_body]
fn parse_rfc3339(s: &str) -> (r: Option<Timestamp>)
    ensures
        r matches Some(t) ==> rfc3339_instant(s@) == Some((t.seconds, t.nanos)),
        r is None ==> rfc3339_instant(s@) is None,
{
    chrono::DateTime::parse_from_rfc3339(s).ok().map(
        |d| Timestamp { seconds: d.timestamp(), nanos: d.timestamp_subsec_nanos() },
    )
}

/// Relies on `base64::decode_config` with the standard alphabet.
#[verifier::external_body]
fn decode_base64(s: &str) -> (r: Option<Vec<u8>>)
    ensures
        r matches Some(b) ==> base64_decoded(s@) == Some(b@),
        r is None ==> base64_decoded(s@) is None,
{
    base64::decode_config(s, base64::Config::new(base64::CharacterSet::Standard, false)).ok()
}

/// Relies on `FromStr` of `cidr::AnyIpCidr`.
#[verifier::external_body]
fn check_cidr(s: &str) -> (r: bool)
    ensures
        r == cidr_valid(s@),
{
    s.parse::<cidr::AnyIpCidr>().is_ok()
}

/// Relies on `AnyIpCidr::contains` of the cidr crate, on the block read from `cidr`
/// and the address of the `IpInet` read from `ip`.
#[verifier::external_body]
fn ip_in_cidr(cidr: &str, ip: &str) -> (r: Option<bool>)
    ensures
        r == cidr_membership(cidr@, ip@),
{
    match (cidr.parse::<cidr::AnyIpCidr>(), ip.parse::<cidr::IpInet>()) {
        (Ok(block), Ok(address)) => Some(block.contains(&address.address())),
        _ => None,
    }
}

// ---------------------------------------------------------------------------
// Evaluation

/// -1, 0 or 1 as `a` is below, equal to or above `b`.
pub open spec fn ordering(a: int, b: int) -> int {
    if a < b { -1 } else if a == b { 0 } else { 1 }
}

/// The order of two instants, earlier first.
pub open spec fn instant_ordering(a: (i64, u32), b: Timestamp) -> int {
    if a.0 != b.seconds { ordering(a.0 as int, b.seconds as int) } else { ordering(a.1 as int, b.nanos as int) }
}

/// Whether an ordering satisfies a comparison.
pub open spec fn compare_holds(op: CompareFn, ord: int) -> bool {
    match op {
        CompareFn::Eq => ord == 0,
        CompareFn::NEq => ord != 0,
        CompareFn::Lt => ord < 0,
        CompareFn::Lte => ord <= 0,
        CompareFn::Gt => ord > 0,
        CompareFn::Gte => ord >= 0,
    }
}

/// Whether one value of the request context satisfies a condition (scripts aside).
pub open spec fn value_holds(c: CondView, v: Json) -> bool {
    match c {
        CondView::StringEquals(_, o, cs, _) => v is Str && (if cs { v->Str_0@ == o } else { lower_of(v->Str_0@) == o }),
        CondView::StringNotEquals(_, o, cs, _) => v is Str && (if cs { v->Str_0@ != o } else { lower_of(v->Str_0@) != o }),
        CondView::NumericCompare(_, o, op, _) => v is Int && compare_holds(op, ordering(v->Int_0 as int, o as int)),
        CondView::DateCompare(_, o, op, _) => v is Str && match rfc3339_instant(v->Str_0@) {
            Some(t) => compare_holds(op, instant_ordering(t, o)),
            None => false,
        },
        CondView::BoolEquals(_, o, _) => v is Bool && v->Bool_0 == o,
        CondView::BinaryEquals(_, o, _) => v is Str && base64_decoded(v->Str_0@) == Some(o),
        CondView::IpAddress(_, o, _) => v is Str && cidr_membership(o, v->Str_0@) == Some(true),
        CondView::NotIpAddress(_, o, _) => v is Str && cidr_membership(o, v->Str_0@) == Some(false),
        CondView::Script(_) => false,
    }
}

pub open spec fn cond_key(c: CondView) -> Seq<char> {
    match c {
        CondView::StringEquals(k, _, _, _) => k,
        CondView::StringNotEquals(k, _, _, _) => k,
        CondView::NumericCompare(k, _, _, _) => k,
        CondView::DateCompare(k, _, _, _) => k,
        CondView::BoolEquals(k, _, _) => k,
        CondView::BinaryEquals(k, _, _) => k,
        CondView::IpAddress(k, _, _) => k,
        CondView::NotIpAddress(k, _, _) => k,
        CondView::Script(_) => seq![],
    }
}

pub open spec fn cond_flags(c: CondView) -> Flags {
    match c {
        CondView::StringEquals(_, _, _, f) => f,
        CondView::StringNotEquals(_, _, _, f) => f,
        CondView::NumericCompare(_, _, _, f) => f,
        CondView::DateCompare(_, _, _, f) => f,
        CondView::BoolEquals(_, _, f) => f,
        CondView::BinaryEquals(_, _, f) => f,
        CondView::IpAddress(_, _, f) => f,
        CondView::NotIpAddress(_, _, f) => f,
        CondView::Script(_) => Flags { for_all_values: false, for_any_value: false, if_exists: false },
    }
}

/// The verdict given for a script: that of the first entry with its source, else false.
pub open spec fn script_verdict(scripts: Seq<(String, bool)>, code: Seq<char>) -> bool
    decreases scripts.len(),
{
    if scripts.len() == 0 {
        false
    } else if scripts[0].0@ == code {
        scripts[0].1
    } else {
        script_verdict(scripts.drop_first(), code)
    }
}

/// Whether a condition holds on a request context. A key with `IfExists` that the
/// context lacks passes; `ForAnyValue` / `ForAllValues` ask for an array under the key,
/// of which one / every element satisfies the condition; without them the single value
/// under the key must satisfy it, and a missing key fails.
pub open spec fn condition_holds(c: CondView, params: Json, scripts: Seq<(String, bool)>) -> bool {
    if c is Script {
        script_verdict(scripts, c->Script_0)
    } else {
        keyed_holds(c, json_get(params, cond_key(c)))
    }
}

/// Whether a condition that reads a key holds, given what the context holds under it.
pub open spec fn keyed_holds(c: CondView, v: Option<Json>) -> bool {
    let f = cond_flags(c);
    if f.if_exists && v is None {
        true
    } else if f.for_any_value || f.for_all_values {
        array_holds(c, f.for_any_value, v)
    } else {
        v is Some && value_holds(c, v->Some_0)
    }
}

/// `ForAnyValue` / `ForAllValues`: the value must be an array, of which one / every
/// element satisfies the condition.
pub open spec fn array_holds(c: CondView, any: bool, v: Option<Json>) -> bool {
    v is Some && v->Some_0 is Array && {
        let items = v->Some_0->Array_0@;
        if any {
            exists|i: int| 0 <= i < items.len() && value_holds(c, #[trigger] items[i])
        } else {
            forall|i: int| 0 <= i < items.len() ==> value_holds(c, #[trigger] items[i])
        }
    }
}

fn compare_i64(op: CompareFn, a: i64, b: i64) -> (r: bool)
    ensures
        r == compare_holds(op, ordering(a as int, b as int)),
{
    match op {
        CompareFn::Eq => a == b,
        CompareFn::NEq => a != b,
        CompareFn::Lt => a < b,
        CompareFn::Lte => a <= b,
        CompareFn::Gt => a > b,
        CompareFn::Gte => a >= b,
    }
}

fn compare_instants(op: CompareFn, a: Timestamp, b: Timestamp) -> (r: bool)
    ensures
        r == compare_holds(op, instant_ordering((a.seconds, a.nanos), b)),
{
    if a.seconds != b.seconds {
        compare_i64(op, a.seconds, b.seconds)
    } else {
        compare_i64(op, a.nanos as i64, b.nanos as i64)
    }
}

fn same_bytes(a: &Vec<u8>, b: &Vec<u8>) -> (r: bool)
    ensures
        r == (a@ == b@),
{
    if a.len() != b.len() {
        return false;
    }
    let mut i: usize = 0;
    while i < a.len()
        invariant
            a.len() == b.len(),
            i <= a.len(),
            forall|k: int| 0 <= k < i ==> a@[k] == b@[k],
        decreases a.len() - i,
    {
        if a[i] != b[i] {
            return false;
        }
        i = i + 1;
    }
    proof {
        assert(a@ =~= b@);
    }
    true
}

/// Looks up the verdict for a script source.
pub fn find_script_verdict(scripts: &Vec<(String, bool)>, code: &str) -> (r: bool)
    ensures
        r == script_verdict(scripts@, code@),
{
    let mut i: usize = 0;
    proof {
        assert(scripts@.subrange(0, scripts@.len() as int) =~= scripts@);
    }
    while i < scripts.len()
        invariant
            i <= scripts.len(),
            script_verdict(scripts@, code@) == script_verdict(scripts@.subrange(i as int, scripts@.len() as int), code@),
        decreases scripts.len() - i,
    {
        proof {
            let rest = scripts@.subrange(i as int, scripts@.len() as int);
            assert(rest.drop_first() =~= scripts@.subrange(i + 1, scripts@.len() as int));
            assert(rest[0] == scripts@[i as int]);
        }
        if same_text(scripts[i].0.as_str(), code) {
            return scripts[i].1;
        }
        i = i + 1;
    }
    false
}

impl Condition {
    /// Whether one value of the request context satisfies this condition (scripts aside).
    pub fn value_matches(&self, v: &Json) -> (r: bool)
        ensures
            r == value_holds(self@, *v),
    {
        match self {
            Condition::StringEquals(_, other, case_sensitive, _) => match v {
                Json::Str(s) => {
                    if *case_sensitive {
                        same_text(s.as_str(), other.as_str())
                    } else {
                        let lower = lowercase(s.as_str());
                        same_text(lower.as_str(), other.as_str())
                    }
                },
                _ => false,
            },
            Condition::StringNotEquals(_, other, case_sensitive, _) => match v {
                Json::Str(s) => {
                    if *case_sensitive {
                        !same_text(s.as_str(), other.as_str())
                    } else {
                        let lower = lowercase(s.as_str());
                        !same_text(lower.as_str(), other.as_str())
                    }
                },
                _ => false,
            },
            Condition::NumericCompare(_, other, op, _) => match v {
                Json::Int(n) => compare_i64(*op, *n, *other),
                _ => false,
            },
            Condition::DateCompare(_, other, op, _) => match v {
                Json::Str(s) => match parse_rfc3339(s.as_str()) {
                    Some(t) => compare_instants(*op, t, *other),
                    None => false,
                },
                _ => false,
            },
            Condition::BoolEquals(_, other, _) => match v {
                Json::Bool(b) => *b == *other,
                _ => false,
            },
            Condition::BinaryEquals(_, other, _) => match v {
                Json::Str(s) => match decode_base64(s.as_str()) {
                    Some(bytes) => same_bytes(&bytes, other),
                    None => false,
                },
                _ => false,
            },
            Condition::IpAddress(_, block, _) => match v {
                Json::Str(s) => match ip_in_cidr(block.as_str(), s.as_str()) {
                    Some(inside) => inside,
                    None => false,
                },
                _ => false,
            },
            Condition::NotIpAddress(_, block, _) => match v {
                Json::Str(s) => match ip_in_cidr(block.as_str(), s.as_str()) {
                    Some(inside) => !inside,
                    None => false,
                },
                _ => false,
            },
            Condition::Script(_) => false,
        }
    }

    fn key_and_flags(&self) -> (r: (&str, Flags))
        ensures
            r.0@ == cond_key(self@),
            r.1 == cond_flags(self@),
    {
        match self {
            Condition::StringEquals(k, _, _, f) => (k.as_str(), *f),
            Condition::StringNotEquals(k, _, _, f) => (k.as_str(), *f),
            Condition::NumericCompare(k, _, _, f) => (k.as_str(), *f),
            Condition::DateCompare(k, _, _, f) => (k.as_str(), *f),
            Condition::BoolEquals(k, _, f) => (k.as_str(), *f),
            Condition::BinaryEquals(k, _, f) => (k.as_str(), *f),
            Condition::IpAddress(k, _, f) => (k.as_str(), *f),
            Condition::NotIpAddress(k, _, f) => (k.as_str(), *f),
            Condition::Script(_) => {
                proof {
                    reveal_strlit("");
                }
                ("", Flags { for_all_values: false, for_any_value: false, if_exists: false })
            },
        }
    }

    /// Whether this condition holds on the request context `params`. Script
    /// conditions take their verdict from `scripts` (source, verdict): the first
    /// entry for the source, or false where there is none.
    pub fn matching(&self, params: &Json, scripts: &Vec<(String, bool)>) -> (r: bool)
        ensures
            r == condition_holds(self@, *params, scripts@),
    {
        if let Condition::Script(code) = self {
            return find_script_verdict(scripts, code.as_str());
        }
        let (key, flags) = self.key_and_flags();
        proof {
            reveal_strlit("");
        }
        let found = params.get(key);
        if flags.if_exists && found.is_none() {
            return true;
        }
        if flags.for_any_value || flags.for_all_values {
            match found {
                Some(Json::Array(items)) => {
                    let mut i: usize = 0;
                    while i < items.len()
                        invariant
                            i <= items.len(),
                            !(self@ is Script),
                            flags == cond_flags(self@),
                            flags.for_any_value || flags.for_all_values,
                            json_get(*params, cond_key(self@)) == Some(Json::Array(*items)),
                            flags.for_any_value ==> forall|k: int| 0 <= k < i ==> !value_holds(self@, #[trigger] items@[k]),
                            !flags.for_any_value ==> forall|k: int| 0 <= k < i ==> value_holds(self@, #[trigger] items@[k]),
                        decreases items.len() - i,
                    {
                        let ok = self.value_matches(&items[i]);
                        if flags.for_any_value && ok {
                            proof {
                                let v = json_get(*params, cond_key(self@));
                                assert(v->Some_0->Array_0@ == items@);
                                assert(value_holds(self@, items@[i as int]));
                                assert(array_holds(self@, true, v));
                                assert(keyed_holds(self@, v));
                            }
                            return true;
                        }
                        if !flags.for_any_value && !ok {
                            proof {
                                let v = json_get(*params, cond_key(self@));
                                assert(v->Some_0->Array_0@ == items@);
                                assert(!value_holds(self@, items@[i as int]));
                                assert(!array_holds(self@, false, v));
                                assert(!keyed_holds(self@, v));
                            }
                            return false;
                        }
                        i = i + 1;
                    }
                    !flags.for_any_value
                },
                _ => false,
            }
        } else {
            match found {
                Some(v) => self.value_matches(v),
                None => false,
            }
        }
    }
}

// ---------------------------------------------------------------------------
// Reading conditions from their JSON form

/// The kinds of keyed condition, as named in the condition language.
#[derive(Clone, Copy, Debug, PartialEq, Eq, Structural)]
pub enum ConditionKind {
    /// With whether the comparison is case sensitive.
    StringEquals(bool),
    StringNotEquals(bool),
    Numeric(CompareFn),
    Date(CompareFn),
    Bool,
    Binary,
    IpAddress,
    NotIpAddress,
}

/// The kind that a name (its modifiers removed) stands for.
pub open spec fn kind_named(name: Seq<char>) -> Option<ConditionKind> {
    if name == "StringEquals"@ { Some(ConditionKind::StringEquals(true)) }
    else if name == "StringNotEquals"@ { Some(ConditionKind::StringNotEquals(true)) }
    else if name == "StringEqualsIgnoreCase"@ { Some(ConditionKind::StringEquals(false)) }
    else if name == "StringNotEqualsIgnoreCase"@ { Some(ConditionKind::StringNotEquals(false)) }
    else if name == "NumericEquals"@ { Some(ConditionKind::Numeric(CompareFn::Eq)) }
    else if name == "NumericNotEquals"@ { Some(ConditionKind::Numeric(CompareFn::NEq)) }
    else if name == "NumericLessThan"@ { Some(ConditionKind::Numeric(CompareFn::Lt)) }
    else if name == "NumericLessThanEquals"@ { Some(ConditionKind::Numeric(CompareFn::Lte)) }
    else if name == "NumericGreaterThan"@ { Some(ConditionKind::Numeric(CompareFn::Gt)) }
    else if name == "NumericGreaterThanEquals"@ { Some(ConditionKind::Numeric(CompareFn::Gte)) }
    else if name == "DateEquals"@ { Some(ConditionKind::Date(CompareFn::Eq)) }
    else if name == "DateNotEquals"@ { Some(ConditionKind::Date(CompareFn::NEq)) }
    else if name == "DateLessThan"@ { Some(ConditionKind::Date(CompareFn::Lt)) }
    else if name == "DateLessThanEquals"@ { Some(ConditionKind::Date(CompareFn::Lte)) }
    else if name == "DateGreaterThan"@ { Some(ConditionKind::Date(CompareFn::Gt)) }
    else if name == "DateGreaterThanEquals"@ { Some(ConditionKind::Date(CompareFn::Gte)) }
    else if name == "Bool"@ { Some(ConditionKind::Bool) }
    else if name == "Binary"@ { Some(ConditionKind::Binary) }
    else if name == "IpAddress"@ { Some(ConditionKind::IpAddress) }
    else if name == "NotIpAddress"@ { Some(ConditionKind::NotIpAddress) }
    else { None }
}

pub open spec fn has_prefix(s: Seq<char>, p: Seq<char>) -> bool {
    s.len() >= p.len() && s.subrange(0, p.len() as int) == p
}

pub open spec fn has_suffix(s: Seq<char>, p: Seq<char>) -> bool {
    s.len() >= p.len() && s.subrange(s.len() - p.len(), s.len() as int) == p
}

/// A key with `ForAnyValue` or `ForAllValues` taken off its front, if it has one.
pub open spec fn strip_quantifier(key: Seq<char>) -> Seq<char> {
    if has_prefix(key, "ForAnyValue"@) {
        key.subrange("ForAnyValue"@.len() as int, key.len() as int)
    } else if has_prefix(key, "ForAllValues"@) {
        key.subrange("ForAllValues"@.len() as int, key.len() as int)
    } else {
        key
    }
}

/// The name of a condition key, with its modifiers taken off: first the quantifier
/// in front, then `IfExists` at the end.
pub open spec fn key_name(key: Seq<char>) -> Seq<char> {
    let k = strip_quantifier(key);
    if has_suffix(k, "IfExists"@) { k.subrange(0, k.len() - "IfExists"@.len()) } else { k }
}

/// The flags that the modifiers of a condition key set.
pub open spec fn key_flags(key: Seq<char>) -> Flags {
    let any = has_prefix(key, "ForAnyValue"@);
    Flags {
        for_any_value: any,
        for_all_values: !any && has_prefix(key, "ForAllValues"@),
        if_exists: has_suffix(strip_quantifier(key), "IfExists"@),
    }
}

/// The condition that one field of a condition object gives, or the kind of error.
pub open spec fn make_condition(kind: ConditionKind, flags: Flags, field: Seq<char>, comp: Json) -> Result<CondView, err::ErrorKind> {
    match kind {
        ConditionKind::StringEquals(cs) => match comp {
            Json::Str(s) => Ok(CondView::StringEquals(field, if cs { s@ } else { lower_of(s@) }, cs, flags)),
            _ => Err(err::ErrorKind::UnwrapNoneValueError),
        },
        ConditionKind::StringNotEquals(cs) => match comp {
            Json::Str(s) => Ok(CondView::StringNotEquals(field, if cs { s@ } else { lower_of(s@) }, cs, flags)),
            _ => Err(err::ErrorKind::UnwrapNoneValueError),
        },
        ConditionKind::Numeric(op) => match comp {
            Json::Int(n) => Ok(CondView::NumericCompare(field, n, op, flags)),
            _ => Err(err::ErrorKind::UnwrapNoneValueError),
        },
        ConditionKind::Date(op) => match comp {
            Json::Str(s) => match rfc3339_instant(s@) {
                Some(t) => Ok(CondView::DateCompare(field, Timestamp { seconds: t.0, nanos: t.1 }, op, flags)),
                None => Err(err::ErrorKind::UnwrapNoneValueError),
            },
            _ => Err(err::ErrorKind::UnwrapNoneValueError),
        },
        ConditionKind::Bool => match comp {
            Json::Bool(b) => Ok(CondView::BoolEquals(field, b, flags)),
            _ => Err(err::ErrorKind::UnwrapNoneValueError),
        },
        ConditionKind::Binary => match comp {
            Json::Str(s) => match base64_decoded(s@) {
                Some(b) => Ok(CondView::BinaryEquals(field, b, flags)),
                None => Err(err::ErrorKind::UnknownError),
            },
            _ => Err(err::ErrorKind::UnwrapNoneValueError),
        },
        ConditionKind::IpAddress => match comp {
            Json::Str(s) => if cidr_valid(s@) {
                Ok(CondView::IpAddress(field, s@, flags))
            } else {
                Err(err::ErrorKind::UnknownError)
            },
            _ => Err(err::ErrorKind::UnwrapNoneValueError),
        },
        ConditionKind::NotIpAddress => match comp {
            Json::Str(s) => if cidr_valid(s@) {
                Ok(CondView::NotIpAddress(field, s@, flags))
            } else {
                Err(err::ErrorKind::UnknownError)
            },
            _ => Err(err::ErrorKind::UnwrapNoneValueError),
        },
    }
}

/// `a` in front of the conditions of `r`, or the error of `r`.
pub open spec fn prepend(a: Seq<CondView>, r: Result<Seq<CondView>, err::ErrorKind>) -> Result<Seq<CondView>, err::ErrorKind> {
    match r {
        Ok(b) => Ok(a + b),
        Err(e) => Err(e),
    }
}

/// The conditions of every field of a condition object, in order; the first error stops.
pub open spec fn make_all(kind: ConditionKind, flags: Flags, fields: Seq<(String, Json)>) -> Result<Seq<CondView>, err::ErrorKind>
    decreases fields.len(),
{
    if fields.len() == 0 {
        Ok(seq![])
    } else {
        match make_condition(kind, flags, fields[0].0@, fields[0].1) {
            Err(e) => Err(e),
            Ok(c) => prepend(seq![c], make_all(kind, flags, fields.drop_first())),
        }
    }
}

/// The conditions that one entry `key: value` of the conditions document gives.
pub open spec fn entry_conditions(key: Seq<char>, value: Json) -> Result<Seq<CondView>, err::ErrorKind> {
    if key == "Script"@ {
        match value {
            Json::Str(s) => Ok(seq![CondView::Script(s@)]),
            _ => Err(err::ErrorKind::UnwrapNoneValueError),
        }
    } else {
        match kind_named(key_name(key)) {
            Some(kind) => match value {
                Json::Object(fields) => make_all(kind, key_flags(key), fields@),
                _ => Err(err::ErrorKind::UnwrapNoneValueError),
            },
            None => Err(err::ErrorKind::UnknownError),
        }
    }
}

/// The conditions of all entries, in order; the first error stops.
pub open spec fn conditions_from(entries: Seq<(String, Json)>) -> Result<Seq<CondView>, err::ErrorKind>
    decreases entries.len(),
{
    if entries.len() == 0 {
        Ok(seq![])
    } else {
        match entry_conditions(entries[0].0@, entries[0].1) {
            Err(e) => Err(e),
            Ok(cs) => prepend(cs, conditions_from(entries.drop_first())),
        }
    }
}

/// The conditions that a conditions document stands for: none for `null`, those of
/// each entry for an object, and an error for anything else.
pub open spec fn parse_conditions(j: Json) -> Result<Seq<CondView>, err::ErrorKind> {
    match j {
        Json::Null => Ok(seq![]),
        Json::Object(entries) => conditions_from(entries@),
        _ => Err(err::ErrorKind::UnwrapNoneValueError),
    }
}

proof fn lemma_prepend_assoc(a: Seq<CondView>, b: Seq<CondView>, r: Result<Seq<CondView>, err::ErrorKind>)
    ensures
        prepend(a + b, r) == prepend(a, prepend(b, r)),
{
    if let Ok(c) = r {
        assert(a + b + c =~= a + (b + c));
    }
}

proof fn lemma_views_push(cs: Seq<Condition>, c: Condition)
    ensures
        cond_views(cs.push(c)) == cond_views(cs) + seq![c@],
{
    assert(cond_views(cs.push(c)) =~= cond_views(cs) + seq![c@]);
}

proof fn lemma_views_append(a: Seq<Condition>, b: Seq<Condition>)
    ensures
        cond_views(a + b) == cond_views(a) + cond_views(b),
{
    assert(cond_views(a + b) =~= cond_views(a) + cond_views(b));
}

/// Whether `s[start..]` begins with `p`.
fn starts_with_at(s: &Vec<char>, start: usize, p: &str) -> (r: bool)
    requires
        start <= s.len(),
    ensures
        r == has_prefix(s@.subrange(start as int, s@.len() as int), p@),
{
    let pc = chars_of(p);
    if s.len() - start < pc.len() {
        return false;
    }
    let mut i: usize = 0;
    while i < pc.len()
        invariant
            start + pc.len() <= s.len(),
            i <= pc.len(),
            pc@ == p@,
            forall|k: int| 0 <= k < i ==> s@[start + k] == pc@[k],
        decreases pc.len() - i,
    {
        if s[start + i] != pc[i] {
            proof {
                let rest = s@.subrange(start as int, s@.len() as int);
                assert(rest.subrange(0, pc@.len() as int)[i as int] != p@[i as int]);
            }
            return false;
        }
        i = i + 1;
    }
    proof {
        let rest = s@.subrange(start as int, s@.len() as int);
        assert(rest.subrange(0, pc@.len() as int) =~= p@);
    }
    true
}

/// Whether `s[..end]` ends with `p`.
fn ends_with_at(s: &Vec<char>, end: usize, p: &str) -> (r: bool)
    requires
        end <= s.len(),
    ensures
        r == has_suffix(s@.subrange(0, end as int), p@),
{
    let pc = chars_of(p);
    if end < pc.len() {
        return false;
    }
    let start = end - pc.len();
    let mut i: usize = 0;
    while i < pc.len()
        invariant
            start + pc.len() == end,
            end <= s.len(),
            i <= pc.len(),
            pc@ == p@,
            forall|k: int| 0 <= k < i ==> s@[start + k] == pc@[k],
        decreases pc.len() - i,
    {
        if s[start + i] != pc[i] {
            proof {
                let head = s@.subrange(0, end as int);
                assert(head.subrange(start as int, end as int)[i as int] != p@[i as int]);
            }
            return false;
        }
        i = i + 1;
    }
    proof {
        let head = s@.subrange(0, end as int);
        assert(head.subrange(start as int, end as int) =~= p@);
    }
    true
}

/// The string made of `s[from..to]`.
fn string_between(s: &Vec<char>, from: usize, to: usize) -> (r: String)
    requires
        from <= to <= s.len(),
    ensures
        r@ == s@.subrange(from as int, to as int),
{
    let mut out = String::new();
    let mut i = from;
    while i < to
        invariant
            from <= i <= to,
            to <= s.len(),
            out@ == s@.subrange(from as int, i as int),
        decreases to - i,
    {
        push_char(&mut out, s[i]);
        i = i + 1;
        proof {
            assert(out@ =~= s@.subrange(from as int, i as int));
        }
    }
    out
}

/// Splits a condition key into its name and the flags its modifiers set.
pub fn split_key(key: &str) -> (r: (String, Flags))
    ensures
        r.0@ == key_name(key@),
        r.1 == key_flags(key@),
{
    let chars = chars_of(key);
    let n = chars.len();
    proof {
        assert(chars@.subrange(0, n as int) =~= chars@);
    }
    let any = starts_with_at(&chars, 0, "ForAnyValue");
    let all = !any && starts_with_at(&chars, 0, "ForAllValues");
    let start: usize = if any {
        chars_of("ForAnyValue").len()
    } else if all {
        chars_of("ForAllValues").len()
    } else {
        0
    };
    proof {
        assert(chars@.subrange(start as int, n as int) =~= strip_quantifier(key@));
        assert(chars@.subrange(start as int, n as int).subrange(0, (n - start) as int) =~= chars@.subrange(start as int, n as int));
    }
    let tail = string_between(&chars, start, n);
    let tail_chars = chars_of(tail.as_str());
    let tn = tail_chars.len();
    proof {
        assert(tail_chars@.subrange(0, tn as int) =~= tail_chars@);
    }
    let if_exists = ends_with_at(&tail_chars, tn, "IfExists");
    let end: usize = if if_exists { tn - chars_of("IfExists").len() } else { tn };
    let name = string_between(&tail_chars, 0, end);
    proof {
        if !if_exists {
            assert(tail_chars@.subrange(0, end as int) =~= tail_chars@);
        }
    }
    (name, Flags { for_any_value: any, for_all_values: all, if_exists })
}

/// The kind that a condition name stands for.
pub fn kind_of_name(name: &str) -> (r: Option<ConditionKind>)
    ensures
        r == kind_named(name@),
{
    if same_text(name, "StringEquals") { Some(ConditionKind::StringEquals(true)) }
    else if same_text(name, "StringNotEquals") { Some(ConditionKind::StringNotEquals(true)) }
    else if same_text(name, "StringEqualsIgnoreCase") { Some(ConditionKind::StringEquals(false)) }
    else if same_text(name, "StringNotEqualsIgnoreCase") { Some(ConditionKind::StringNotEquals(false)) }
    else if same_text(name, "NumericEquals") { Some(ConditionKind::Numeric(CompareFn::Eq)) }
    else if same_text(name, "NumericNotEquals") { Some(ConditionKind::Numeric(CompareFn::NEq)) }
    else if same_text(name, "NumericLessThan") { Some(ConditionKind::Numeric(CompareFn::Lt)) }
    else if same_text(name, "NumericLessThanEquals") { Some(ConditionKind::Numeric(CompareFn::Lte)) }
    else if same_text(name, "NumericGreaterThan") { Some(ConditionKind::Numeric(CompareFn::Gt)) }
    else if same_text(name, "NumericGreaterThanEquals") { Some(ConditionKind::Numeric(CompareFn::Gte)) }
    else if same_text(name, "DateEquals") { Some(ConditionKind::Date(CompareFn::Eq)) }
    else if same_text(name, "DateNotEquals") { Some(ConditionKind::Date(CompareFn::NEq)) }
    else if same_text(name, "DateLessThan") { Some(ConditionKind::Date(CompareFn::Lt)) }
    else if same_text(name, "DateLessThanEquals") { Some(ConditionKind::Date(CompareFn::Lte)) }
    else if same_text(name, "DateGreaterThan") { Some(ConditionKind::Date(CompareFn::Gt)) }
    else if same_text(name, "DateGreaterThanEquals") { Some(ConditionKind::Date(CompareFn::Gte)) }
    else if same_text(name, "Bool") { Some(ConditionKind::Bool) }
    else if same_text(name, "Binary") { Some(ConditionKind::Binary) }
    else if same_text(name, "IpAddress") { Some(ConditionKind::IpAddress) }
    else if same_text(name, "NotIpAddress") { Some(ConditionKind::NotIpAddress) }
    else { None }
}

/// Builds the condition of one field of a condition object.
pub fn make_one(kind: ConditionKind, flags: Flags, field: &String, comp: &Json) -> (r: Result<Condition, err::Error>)
    ensures
        r matches Ok(c) ==> make_condition(kind, flags, field@, *comp) == Ok::<CondView, err::ErrorKind>(c@),
        r matches Err(e) ==> make_condition(kind, flags, field@, *comp) == Err::<CondView, err::ErrorKind>(e.spec_kind()),
{
    let key = field.clone();
    match kind {
        ConditionKind::StringEquals(cs) => match comp {
            Json::Str(s) => Ok(Condition::StringEquals(key, if cs { s.clone() } else { lowercase(s.as_str()) }, cs, flags)),
            _ => Err(err::Error::malformed("Conditions.StringEquals value is not a string")),
        },
        ConditionKind::StringNotEquals(cs) => match comp {
            Json::Str(s) => Ok(Condition::StringNotEquals(key, if cs { s.clone() } else { lowercase(s.as_str()) }, cs, flags)),
            _ => Err(err::Error::malformed("Conditions.StringNotEquals value is not a string")),
        },
        ConditionKind::Numeric(op) => match comp {
            Json::Int(n) => Ok(Condition::NumericCompare(key, *n, op, flags)),
            _ => Err(err::Error::malformed("Conditions.Numeric value is not an integer")),
        },
        ConditionKind::Date(op) => match comp {
            Json::Str(s) => match parse_rfc3339(s.as_str()) {
                Some(t) => Ok(Condition::DateCompare(key, t, op, flags)),
                None => Err(err::Error::malformed("Conditions.Date value is not a date")),
            },
            _ => Err(err::Error::malformed("Conditions.Date value is not a date")),
        },
        ConditionKind::Bool => match comp {
            Json::Bool(b) => Ok(Condition::BoolEquals(key, *b, flags)),
            _ => Err(err::Error::malformed("Conditions.Bool value is not a boolean")),
        },
        ConditionKind::Binary => match comp {
            Json::Str(s) => match decode_base64(s.as_str()) {
                Some(bytes) => Ok(Condition::BinaryEquals(key, bytes, flags)),
                None => Err(err::Error::other("Conditions.Binary value is not valid base64")),
            },
            _ => Err(err::Error::malformed("Conditions.Binary value is not a string")),
        },
        ConditionKind::IpAddress => match comp {
            Json::Str(s) => if check_cidr(s.as_str()) {
                Ok(Condition::IpAddress(key, s.clone(), flags))
            } else {
                Err(err::Error::other("Conditions.IpAddress value is not a CIDR block"))
            },
            _ => Err(err::Error::malformed("Conditions.IpAddress value is not a string")),
        },
        ConditionKind::NotIpAddress => match comp {
            Json::Str(s) => if check_cidr(s.as_str()) {
                Ok(Condition::NotIpAddress(key, s.clone(), flags))
            } else {
                Err(err::Error::other("Conditions.NotIpAddress value is not a CIDR block"))
            },
            _ => Err(err::Error::malformed("Conditions.NotIpAddress value is not a string")),
        },
    }
}

/// Builds the conditions of every field of a condition object.
pub fn make_fields(kind: ConditionKind, flags: Flags, value: &Json) -> (r: Result<Vec<Condition>, err::Error>)
    ensures
        r matches Ok(cs) ==> value is Object && make_all(kind, flags, value->Object_0@) == Ok::<Seq<CondView>, err::ErrorKind>(cond_views(cs@)),
        r matches Err(e) ==> (value is Object ==> make_all(kind, flags, value->Object_0@) == Err::<Seq<CondView>, err::ErrorKind>(e.spec_kind())),
        r matches Err(e) ==> (!(value is Object) ==> e.spec_kind() == err::ErrorKind::UnwrapNoneValueError),
{
    match value {
        Json::Object(fields) => {
            let mut out: Vec<Condition> = Vec::new();
            let mut i: usize = 0;
            proof {
                assert(fields@.subrange(0, fields@.len() as int) =~= fields@);
                assert(cond_views(out@) =~= seq![]);
            }
            while i < fields.len()
                invariant
                    *value is Object,
                    value->Object_0 == *fields,
                    i <= fields.len(),
                    make_all(kind, flags, fields@) == prepend(cond_views(out@), make_all(kind, flags, fields@.subrange(i as int, fields@.len() as int))),
                decreases fields.len() - i,
            {
                let ghost rest = fields@.subrange(i as int, fields@.len() as int);
                proof {
                    assert(rest.drop_first() =~= fields@.subrange(i + 1, fields@.len() as int));
                    assert(rest[0] == fields@[i as int]);
                }
                match make_one(kind, flags, &fields[i].0, &fields[i].1) {
                    Ok(c) => {
                        proof {
                            lemma_prepend_assoc(cond_views(out@), seq![c@], make_all(kind, flags, rest.drop_first()));
                            lemma_views_push(out@, c);
                        }
                        out.push(c);
                    },
                    Err(e) => {
                        return Err(e);
                    },
                }
                i = i + 1;
            }
            proof {
                assert(cond_views(out@) + seq![] =~= cond_views(out@));
            }
            Ok(out)
        },
        _ => Err(err::Error::malformed("Conditions value is not an object")),
    }
}

impl Condition {
    /// Reads the conditions of a policy from their JSON form: `null` gives none, an
    /// object gives the conditions of each of its entries, in order.
    pub fn from_value(conditions: &Json) -> (r: Result<Vec<Condition>, err::Error>)
        ensures
            r matches Ok(cs) ==> parse_conditions(*conditions) == Ok::<Seq<CondView>, err::ErrorKind>(cond_views(cs@)),
            r matches Err(e) ==> parse_conditions(*conditions) == Err::<Seq<CondView>, err::ErrorKind>(e.spec_kind()),
    {
        match conditions {
            Json::Null => {
                let out: Vec<Condition> = Vec::new();
                proof {
                    assert(cond_views(out@) =~= seq![]);
                }
                Ok(out)
            },
            Json::Object(entries) => {
                let mut out: Vec<Condition> = Vec::new();
                let mut i: usize = 0;
                proof {
                    assert(entries@.subrange(0, entries@.len() as int) =~= entries@);
                    assert(cond_views(out@) =~= seq![]);
                }
                while i < entries.len()
                    invariant
                        *conditions is Object,
                        conditions->Object_0 == *entries,
                        i <= entries.len(),
                        conditions_from(entries@) == prepend(cond_views(out@), conditions_from(entries@.subrange(i as int, entries@.len() as int))),
                    decreases entries.len() - i,
                {
                    let ghost rest = entries@.subrange(i as int, entries@.len() as int);
                    proof {
                        assert(rest.drop_first() =~= entries@.subrange(i + 1, entries@.len() as int));
                        assert(rest[0] == entries@[i as int]);
                    }
                    let key = entries[i].0.as_str();
                    let value = &entries[i].1;
                    let mut found: Vec<Condition> = Vec::new();
                    if same_text(key, "Script") {
                        match value {
                            Json::Str(code) => {
                                found.push(Condition::Script(code.clone()));
                                proof {
                                    assert(cond_views(found@) =~= seq![CondView::Script(code@)]);
                                }
                            },
                            _ => {
                                return Err(err::Error::malformed("Conditions.Script value is not a string"));
                            },
                        }
                    } else {
                        let (name, flags) = split_key(key);
                        match kind_of_name(name.as_str()) {
                            Some(kind) => {
                                match make_fields(kind, flags, value) {
                                    Ok(cs) => {
                                        found = cs;
                                    },
                                    Err(e) => {
                                        return Err(e);
                                    },
                                }
                            },
                            None => {
                                return Err(err::Error::other("Unknown condition key"));
                            },
                        }
                    }
                    proof {
                        assert(entry_conditions(key@, *value) == Ok::<Seq<CondView>, err::ErrorKind>(cond_views(found@)));
                        lemma_prepend_assoc(cond_views(out@), cond_views(found@), conditions_from(rest.drop_first()));
                        lemma_views_append(out@, found@);
                    }
                    out.append(&mut found);
                    i = i + 1;
                }
                proof {
                    assert(cond_views(out@) + seq![] =~= cond_views(out@));
                }
                Ok(out)
            },
            _ => Err(err::Error::malformed("Conditions is not an object")),
        }
    }
}

// ---------------------------------------------------------------------------
// Copies and comparisons

fn clone_bytes(v: &Vec<u8>) -> (r: Vec<u8>)
    ensures
        r@ == v@,
{
    let mut out: Vec<u8> = Vec::new();
    let mut i: usize = 0;
    while i < v.len()
        invariant
            i <= v.len(),
            out@ == v@.subrange(0, i as int),
        decreases v.len() - i,
    {
        out.push(v[i]);
        i = i + 1;
        proof {
            assert(out@ =~= v@.subrange(0, i as int));
        }
    }
    proof {
        assert(out@ =~= v@);
    }
    out
}

impl Condition {
    pub fn clone(&self) -> (r: Condition)
        ensures
            r@ == self@,
    {
        match self {
            Condition::StringEquals(k, o, c, f) => Condition::StringEquals(k.clone(), o.clone(), *c, *f),
            Condition::StringNotEquals(k, o, c, f) => Condition::StringNotEquals(k.clone(), o.clone(), *c, *f),
            Condition::NumericCompare(k, o, op, f) => Condition::NumericCompare(k.clone(), *o, *op, *f),
            Condition::DateCompare(k, o, op, f) => Condition::DateCompare(k.clone(), *o, *op, *f),
            Condition::BoolEquals(k, o, f) => Condition::BoolEquals(k.clone(), *o, *f),
            Condition::BinaryEquals(k, o, f) => Condition::BinaryEquals(k.clone(), clone_bytes(o), *f),
            Condition::IpAddress(k, o, f) => Condition::IpAddress(k.clone(), o.clone(), *f),
            Condition::NotIpAddress(k, o, f) => Condition::NotIpAddress(k.clone(), o.clone(), *f),
            Condition::Script(s) => Condition::Script(s.clone()),
        }
    }

    /// Whether two conditions are the same, field for field.
    pub fn same_as(&self, other: &Condition) -> (r: bool)
        ensures
            r == (self@ == other@),
    {
        match (self, other) {
            (Condition::StringEquals(k1, o1, c1, f1), Condition::StringEquals(k2, o2, c2, f2)) =>
                same_text(k1.as_str(), k2.as_str()) && same_text(o1.as_str(), o2.as_str()) && *c1 == *c2 && *f1 == *f2,
            (Condition::StringNotEquals(k1, o1, c1, f1), Condition::StringNotEquals(k2, o2, c2, f2)) =>
                same_text(k1.as_str(), k2.as_str()) && same_text(o1.as_str(), o2.as_str()) && *c1 == *c2 && *f1 == *f2,
            (Condition::NumericCompare(k1, o1, c1, f1), Condition::NumericCompare(k2, o2, c2, f2)) =>
                same_text(k1.as_str(), k2.as_str()) && *o1 == *o2 && *c1 == *c2 && *f1 == *f2,
            (Condition::DateCompare(k1, o1, c1, f1), Condition::DateCompare(k2, o2, c2, f2)) =>
                same_text(k1.as_str(), k2.as_str()) && *o1 == *o2 && *c1 == *c2 && *f1 == *f2,
            (Condition::BoolEquals(k1, o1, f1), Condition::BoolEquals(k2, o2, f2)) =>
                same_text(k1.as_str(), k2.as_str()) && *o1 == *o2 && *f1 == *f2,
            (Condition::BinaryEquals(k1, o1, f1), Condition::BinaryEquals(k2, o2, f2)) =>
                same_text(k1.as_str(), k2.as_str()) && same_bytes(o1, o2) && *f1 == *f2,
            (Condition::IpAddress(k1, o1, f1), Condition::IpAddress(k2, o2, f2)) =>
                same_text(k1.as_str(), k2.as_str()) && same_text(o1.as_str(), o2.as_str()) && *f1 == *f2,
            (Condition::NotIpAddress(k1, o1, f1), Condition::NotIpAddress(k2, o2, f2)) =>
                same_text(k1.as_str(), k2.as_str()) && same_text(o1.as_str(), o2.as_str()) && *f1 == *f2,
            (Condition::Script(s1), Condition::Script(s2)) => same_text(s1.as_str(), s2.as_str()),
            _ => false,
        }
    }
}

/// A copy of a list of conditions.
pub fn clone_conditions(v: &Vec<Condition>) -> (r: Vec<Condition>)
    ensures
        cond_views(r@) == cond_views(v@),
{
    let mut out: Vec<Condition> = Vec::new();
    let mut i: usize = 0;
    while i < v.len()
        invariant
            i <= v.len(),
            cond_views(out@) == cond_views(v@.subrange(0, i as int)),
        decreases v.len() - i,
    {
        let c = v[i].clone();
        proof {
            lemma_views_push(out@, c);
            assert(v@.subrange(0, i + 1) =~= v@.subrange(0, i as int).push(v@[i as int]));
            lemma_views_push(v@.subrange(0, i as int), v@[i as int]);
        }
        out.push(c);
        i = i + 1;
    }
    proof {
        assert(v@.subrange(0, v@.len() as int) =~= v@);
    }
    out
}

/// Whether two lists of conditions are the same, in order.
pub fn same_conditions(a: &Vec<Condition>, b: &Vec<Condition>) -> (r: bool)
    ensures
        r == (cond_views(a@) == cond_views(b@)),
{
    if a.len() != b.len() {
        proof {
            assert(cond_views(a@).len() != cond_views(b@).len());
        }
        return false;
    }
    let mut i: usize = 0;
    while i < a.len()
        invariant
            a.len() == b.len(),
            i <= a.len(),
            forall|k: int| 0 <= k < i ==> #[trigger] a@[k]@ == b@[k]@,
        decreases a.len() - i,
    {
        if !a[i].same_as(&b[i]) {
            proof {
                assert(cond_views(a@)[i as int] != cond_views(b@)[i as int]);
            }
            return false;
        }
        i = i + 1;
    }
    proof {
        assert(cond_views(a@) =~= cond_views(b@));
    }
    true
}

} // verus!
