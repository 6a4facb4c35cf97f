//! Delegation (NIP-26): conditions a delegator binds a delegatee to, the
//! signed token that grants the delegation, and the tag that carries it.
use vstd::prelude::*;
use vstd::utf8::encode_utf8;
use crate::assymetric_secp256k1::{
    AssymetricSecp256k1, schnorr_verifies, pubkey_of_secret, public_key_hex_ok, bech32_payload,
};
use crate::basecore::{ParseError, AsymmetricKeyError};
use crate::decutil::{
    dec_chars_of, dec_parseable, dec_parsed, parse_dec_u16, parse_dec_u64, u64_to_dec_bytes,
};
use crate::hexutil::{hex_of, hex_bytes_of, is_hex_str, bytes_to_hex};
use crate::rng::CryptoHashRng;
use crate::signing::{NostrPubKey, NostrSignature, SchnorrSigningKey};
use crate::strutil::ascii_to_string;
use crate::coordinate::find_char_from;
use vstd::string::{StrSliceExecFns, StringExecFns};

verus! {

/// Why a delegation did not hold for an event.
#[derive(Debug, Clone, Copy, PartialEq, Eq, Structural)]
pub enum ValidationError {
    /// The signature does not match the claim being validated.
    InvalidSignature,
    /// The event kind is not the one delegated.
    InvalidKind,
    /// The event was created at or before the lower time bound.
    CreatedTooEarly,
    /// The event was created at or after the upper time bound.
    CreatedTooLate,
}

/// Errors when parsing or checking delegation conditions and tags.
#[derive(Debug, Clone, PartialEq, Eq)]
pub enum ConditionError {
    /// Malformed key material.
    Keys(AsymmetricKeyError),
    /// A malformed rendering of a field.
    Parsing(ParseError),
    /// A clause that is none of `kind=`, `created_at<`, `created_at>`.
    ConditionsParseInvalidCondition,
    /// A condition the event does not satisfy.
    ConditionsValidation(ValidationError),
    /// A delegation tag of the wrong shape.
    DelegationTagParse,
}

/// One condition of a delegation.
#[derive(Debug, Clone, Copy, PartialEq, Eq, Structural, Hash)]
pub enum Condition {
    /// The event kind must be exactly this.
    Kind(u16),
    /// The event must be created strictly before this time.
    CreatedBefore(u64),
    /// The event must be created strictly after this time.
    CreatedAfter(u64),
}

/// The properties of an event that delegation conditions judge.
#[derive(Debug, Clone, Copy, PartialEq, Eq, Structural)]
pub struct EventProperties {
    kind: u16,
    created_time: u64,
}

impl EventProperties {
    /// The event kind.
    pub closed spec fn kind_of(self) -> u16 {
        self.kind
    }

    /// The creation time.
    pub closed spec fn created_at(self) -> u64 {
        self.created_time
    }

    /// Record an event's kind and creation time.
    pub fn new(event_kind: u16, created_time: u64) -> (r: EventProperties)
        ensures
            r.kind_of() == event_kind,
            r.created_at() == created_time,
    {
        EventProperties { kind: event_kind, created_time }
    }
}

/// Whether an event with the given kind and creation time satisfies a
/// condition: exact kind match, or strict time bounds.
pub open spec fn condition_holds(c: Condition, kind: u16, created: u64) -> bool {
    match c {
        Condition::Kind(k) => kind == k,
        Condition::CreatedBefore(t) => created < t,
        Condition::CreatedAfter(t) => created > t,
    }
}

/// The error a failed condition reports.
pub open spec fn condition_error(c: Condition) -> ValidationError {
    match c {
        Condition::Kind(_) => ValidationError::InvalidKind,
        Condition::CreatedBefore(_) => ValidationError::CreatedTooLate,
        Condition::CreatedAfter(_) => ValidationError::CreatedTooEarly,
    }
}

/// The text of one condition: `kind=K`, `created_at<T` or `created_at>T`.
pub open spec fn condition_chars(c: Condition) -> Seq<char> {
    match c {
        Condition::Kind(k) => "kind="@ + dec_chars_of(k as nat),
        Condition::CreatedBefore(t) => "created_at<"@ + dec_chars_of(t as nat),
        Condition::CreatedAfter(t) => "created_at>"@ + dec_chars_of(t as nat),
    }
}

/// The text of a condition list: the clauses joined by `&`, in order.
pub open spec fn conditions_chars(cs: Seq<Condition>) -> Seq<char>
    decreases cs.len(),
{
    if cs.len() == 0 {
        Seq::empty()
    } else if cs.len() == 1 {
        condition_chars(cs[0])
    } else {
        condition_chars(cs[0]) + seq!['&'] + conditions_chars(cs.drop_first())
    }
}

/// The condition a clause text names, or the error: an unusable number, or a
/// clause of an unknown shape.
pub open spec fn condition_parsed(s: Seq<char>) -> Result<Condition, ConditionError> {
    if s.len() >= 5 && s.take(5) == "kind="@ {
        if dec_parseable(s.skip(5), u16::MAX as int) {
            Ok(Condition::Kind(dec_parsed(s.skip(5)) as u16))
        } else {
            Err(ConditionError::Parsing(ParseError::ParseInt))
        }
    } else if s.len() >= 11 && s.take(11) == "created_at<"@ {
        if dec_parseable(s.skip(11), u64::MAX as int) {
            Ok(Condition::CreatedBefore(dec_parsed(s.skip(11)) as u64))
        } else {
            Err(ConditionError::Parsing(ParseError::ParseInt))
        }
    } else if s.len() >= 11 && s.take(11) == "created_at>"@ {
        if dec_parseable(s.skip(11), u64::MAX as int) {
            Ok(Condition::CreatedAfter(dec_parsed(s.skip(11)) as u64))
        } else {
            Err(ConditionError::Parsing(ParseError::ParseInt))
        }
    } else {
        Err(ConditionError::ConditionsParseInvalidCondition)
    }
}

/// The conditions a nonempty `&`-separated text names: every segment,
/// including empty ones, must be a clause.
pub open spec fn conditions_split_parsed(s: Seq<char>) -> Result<Seq<Condition>, ConditionError>
    decreases s.len(),
    via conditions_split_parsed_decreases
{
    let i = find_char_from(s, '&', 0);
    match condition_parsed(s.take(i)) {
        Err(e) => Err(e),
        Ok(c) => if i == s.len() {
            Ok(seq![c])
        } else {
            match conditions_split_parsed(s.skip(i + 1)) {
                Err(e) => Err(e),
                Ok(rest) => Ok(seq![c] + rest),
            }
        },
    }
}

#[via_fn]
proof fn conditions_split_parsed_decreases(s: Seq<char>) {
    crate::nostruri::lemma_find_char_bounds(s, '&', 0);
}

/// The conditions a text names; the empty text names the empty list.
pub open spec fn conditions_parsed(s: Seq<char>) -> Result<Seq<Condition>, ConditionError> {
    if s.len() == 0 {
        Ok(Seq::empty())
    } else {
        conditions_split_parsed(s)
    }
}

/// A clause text is at least six characters, holds no ampersand, and parses
/// back to its condition.
pub proof fn lemma_condition_text_round_trip(c: Condition)
    ensures
        condition_chars(c).len() >= 6,
        forall|i: int| 0 <= i < condition_chars(c).len() ==> #[trigger] condition_chars(c)[i] != '&',
        condition_parsed(condition_chars(c)) == Ok::<Condition, ConditionError>(c),
{
    reveal_strlit("kind=");
    reveal_strlit("created_at<");
    reveal_strlit("created_at>");
    assert("kind="@ =~= seq!['k', 'i', 'n', 'd', '=']);
    assert("created_at<"@ =~= seq!['c', 'r', 'e', 'a', 't', 'e', 'd', '_', 'a', 't', '<']);
    assert("created_at>"@ =~= seq!['c', 'r', 'e', 'a', 't', 'e', 'd', '_', 'a', 't', '>']);
    let s = condition_chars(c);
    match c {
        Condition::Kind(k) => {
            let digits = dec_chars_of(k as nat);
            crate::decutil::lemma_dec_chars_are_digits(k as nat);
            crate::decutil::lemma_dec_round_trip(k as nat, u16::MAX as int);
            assert(s =~= "kind="@ + digits);
            assert(s.take(5) =~= "kind="@);
            assert(s.skip(5) =~= digits);
            assert forall|i: int| 0 <= i < s.len() implies #[trigger] s[i] != '&' by {
                if i >= 5 {
                    assert(s[i] == digits[i - 5]);
                    assert(crate::decutil::is_dec_digit(digits[i - 5]));
                }
            }
        },
        Condition::CreatedBefore(v) => {
            let digits = dec_chars_of(v as nat);
            crate::decutil::lemma_dec_chars_are_digits(v as nat);
            crate::decutil::lemma_dec_round_trip(v as nat, u64::MAX as int);
            assert(s =~= "created_at<"@ + digits);
            assert(s[0] == 'c');
            assert(s.take(5)[0] == 'c');
            assert(s.take(5) != "kind="@);
            assert(s.take(11) =~= "created_at<"@);
            assert(s.skip(11) =~= digits);
            assert forall|i: int| 0 <= i < s.len() implies #[trigger] s[i] != '&' by {
                if i >= 11 {
                    assert(s[i] == digits[i - 11]);
                    assert(crate::decutil::is_dec_digit(digits[i - 11]));
                } else {
                    assert(s[i] == "created_at<"@[i]);
                }
            }
        },
        Condition::CreatedAfter(v) => {
            let digits = dec_chars_of(v as nat);
            crate::decutil::lemma_dec_chars_are_digits(v as nat);
            crate::decutil::lemma_dec_round_trip(v as nat, u64::MAX as int);
            assert(s =~= "created_at>"@ + digits);
            assert(s[0] == 'c');
            assert(s.take(5)[0] == 'c');
            assert(s.take(5) != "kind="@);
            assert(s.take(11)[10] == '>');
            assert(s.take(11) != "created_at<"@);
            assert(s.take(11) =~= "created_at>"@);
            assert(s.skip(11) =~= digits);
            assert forall|i: int| 0 <= i < s.len() implies #[trigger] s[i] != '&' by {
                if i >= 11 {
                    assert(s[i] == digits[i - 11]);
                    assert(crate::decutil::is_dec_digit(digits[i - 11]));
                } else {
                    assert(s[i] == "created_at>"@[i]);
                }
            }
        },
    }
}

/// Where a character does not appear before `at` and stands at `at`, the
/// search finds `at`.
proof fn lemma_find_char_at(s: Seq<char>, c: char, from: int, at: int)
    requires
        0 <= from <= at < s.len(),
        s[at] == c,
        forall|k: int| from <= k < at ==> s[k] != c,
    ensures
        find_char_from(s, c, from) == at,
    decreases at - from,
{
    if from < at {
        lemma_find_char_at(s, c, from + 1, at);
    }
}

/// Where the character never appears, the search reaches the end.
proof fn lemma_find_char_none(s: Seq<char>, c: char, from: int)
    requires
        0 <= from <= s.len(),
        forall|k: int| from <= k < s.len() ==> s[k] != c,
    ensures
        find_char_from(s, c, from) == s.len(),
    decreases s.len() - from,
{
    if from < s.len() {
        lemma_find_char_none(s, c, from + 1);
    }
}

/// The text of a condition list parses back to the list: rendering and
/// parsing of delegation conditions are inverse, in order.
pub proof fn lemma_conditions_text_round_trip(cs: Seq<Condition>)
    ensures
        conditions_parsed(conditions_chars(cs)) == Ok::<Seq<Condition>, ConditionError>(cs),
    decreases cs.len(),
{
    let text = conditions_chars(cs);
    if cs.len() == 0 {
        assert(cs =~= Seq::<Condition>::empty());
    } else if cs.len() == 1 {
        lemma_condition_text_round_trip(cs[0]);
        assert(text == condition_chars(cs[0]));
        lemma_find_char_none(text, '&', 0);
        assert(text.take(text.len() as int) =~= text);
        assert(conditions_split_parsed(text) == Ok::<Seq<Condition>, ConditionError>(
            seq![cs[0]],
        ));
        assert(seq![cs[0]] =~= cs);
    } else {
        let c0text = condition_chars(cs[0]);
        let rest = conditions_chars(cs.drop_first());
        lemma_condition_text_round_trip(cs[0]);
        lemma_conditions_text_round_trip(cs.drop_first());
        assert(text =~= c0text + seq!['&'] + rest);
        let i = c0text.len() as int;
        assert(text[i] == '&');
        assert forall|k: int| 0 <= k < i implies text[k] != '&' by {
            assert(text[k] == c0text[k]);
        }
        lemma_find_char_at(text, '&', 0, i);
        assert(text.take(i) =~= c0text);
        assert(text.skip(i + 1) =~= rest);
        assert(rest.len() > 0) by {
            if cs.drop_first().len() == 1 {
                lemma_condition_text_round_trip(cs.drop_first()[0]);
            } else {
                lemma_condition_text_round_trip(cs.drop_first()[0]);
                assert(rest =~= condition_chars(cs.drop_first()[0]) + seq!['&']
                    + conditions_chars(cs.drop_first().drop_first()));
            }
        }
        assert(conditions_split_parsed(rest) == Ok::<Seq<Condition>, ConditionError>(
            cs.drop_first(),
        ));
        assert(conditions_split_parsed(text) == Ok::<Seq<Condition>, ConditionError>(
            seq![cs[0]] + cs.drop_first(),
        ));
        assert(seq![cs[0]] + cs.drop_first() =~= cs);
    }
}

/// The verdict of evaluating conditions in order: the error of the first
/// failing condition, or success when all hold.
pub open spec fn conditions_eval(cs: Seq<Condition>, kind: u16, created: u64) -> Result<
    (),
    ValidationError,
>
    decreases cs.len(),
{
    if cs.len() == 0 {
        Ok(())
    } else if !condition_holds(cs[0], kind, created) {
        Err(condition_error(cs[0]))
    } else {
        conditions_eval(cs.drop_first(), kind, created)
    }
}

impl Condition {
    /// Whether the event satisfies this condition; the failure names which
    /// bound broke.
    pub fn evaluate(&self, ep: &EventProperties) -> (r: Result<(), ValidationError>)
        ensures
            r is Ok <==> condition_holds(*self, ep.kind_of(), ep.created_at()),
            r is Err ==> r->Err_0 == condition_error(*self),
    {
        match self {
            Condition::Kind(k) => {
                if ep.kind != *k {
                    return Err(ValidationError::InvalidKind);
                }
            },
            Condition::CreatedBefore(t) => {
                if ep.created_time >= *t {
                    return Err(ValidationError::CreatedTooLate);
                }
            },
            Condition::CreatedAfter(t) => {
                if ep.created_time <= *t {
                    return Err(ValidationError::CreatedTooEarly);
                }
            },
        }
        Ok(())
    }

    /// The clause text of this condition.
    pub fn to_cond_string(&self) -> (r: String)
        ensures
            r@ == condition_chars(*self),
    {
        match self {
            Condition::Kind(k) => {
                let num = ascii_to_string(u64_to_dec_bytes(*k as u64));
                String::from_str("kind=").concat(num.as_str())
            },
            Condition::CreatedBefore(t) => {
                let num = ascii_to_string(u64_to_dec_bytes(*t));
                String::from_str("created_at<").concat(num.as_str())
            },
            Condition::CreatedAfter(t) => {
                let num = ascii_to_string(u64_to_dec_bytes(*t));
                String::from_str("created_at>").concat(num.as_str())
            },
        }
    }

    /// Parse one clause text.
    pub fn parse_str(s: &str) -> (r: Result<Condition, ConditionError>)
        ensures
            r == condition_parsed(s@),
    {
        proof {
            reveal_strlit("kind=");
            reveal_strlit("created_at<");
            reveal_strlit("created_at>");
        }
        let n = s.unicode_len();
        if n >= 5 && str_prefix_eq(s, "kind=", 5) {
            let rest = s.substring_char(5, n);
            return match parse_dec_u16(rest) {
                Some(v) => Ok(Condition::Kind(v)),
                None => Err(ConditionError::Parsing(ParseError::ParseInt)),
            };
        }
        if n >= 11 && str_prefix_eq(s, "created_at<", 11) {
            let rest = s.substring_char(11, n);
            return match parse_dec_u64(rest) {
                Some(v) => Ok(Condition::CreatedBefore(v)),
                None => Err(ConditionError::Parsing(ParseError::ParseInt)),
            };
        }
        if n >= 11 && str_prefix_eq(s, "created_at>", 11) {
            let rest = s.substring_char(11, n);
            return match parse_dec_u64(rest) {
                Some(v) => Ok(Condition::CreatedAfter(v)),
                None => Err(ConditionError::Parsing(ParseError::ParseInt)),
            };
        }
        Err(ConditionError::ConditionsParseInvalidCondition)
    }
}

/// Whether the text starts with the given clause keyword of that length.
fn str_prefix_eq(s: &str, prefix: &str, len: usize) -> (r: bool)
    requires
        prefix@.len() == len,
        s@.len() >= len,
    ensures
        r == (s@.take(len as int) == prefix@),
{
    let head = s.substring_char(0, len);
    crate::nostrbech32::str_eq_chars(head, prefix)
}

/// An ordered list of delegation conditions; all must hold together.
#[derive(Debug, PartialEq, Eq, Hash)]
pub struct Conditions(Vec<Condition>);

/// Copy a condition list.
fn clone_conditions_vec(v: &Vec<Condition>) -> (r: Vec<Condition>)
    ensures
        r@ == v@,
{
    let n = v.len();
    let mut out: Vec<Condition> = Vec::new();
    let mut i: usize = 0;
    while i < n
        invariant
            n == v@.len(),
            i <= n,
            out@ =~= v@.take(i as int),
        decreases n - i,
    {
        out.push(v[i]);
        i += 1;
    }
    proof {
        assert(v@.take(n as int) =~= v@);
    }
    out
}

impl Clone for Conditions {
    fn clone(&self) -> (r: Conditions)
        ensures
            r@ == self@,
    {
        Conditions(clone_conditions_vec(&self.0))
    }
}

impl View for Conditions {
    type V = Seq<Condition>;

    closed spec fn view(&self) -> Seq<Condition> {
        self.0@
    }
}

impl Conditions {
    /// No conditions at all.
    pub fn new() -> (r: Conditions)
        ensures
            r@ == Seq::<Condition>::empty(),
    {
        Conditions(Vec::new())
    }

    /// Append one condition.
    pub fn add(&mut self, cond: Condition)
        ensures
            final(self)@ == old(self)@.push(cond),
    {
        self.0.push(cond);
    }

    /// The conditions as a list.
    pub fn inner(&self) -> (r: Vec<Condition>)
        ensures
            r@ == self@,
    {
        clone_conditions_vec(&self.0)
    }

    /// Whether the event satisfies every condition; the failure names the
    /// first bound that broke.
    pub fn evaluate(&self, ep: &EventProperties) -> (r: Result<(), ValidationError>)
        ensures
            r == conditions_eval(self@, ep.kind_of(), ep.created_at()),
            r is Ok <==> forall|k: int|
                0 <= k < self@.len() ==> condition_holds(
                    #[trigger] self@[k],
                    ep.kind_of(),
                    ep.created_at(),
                ),
    {
        let n = self.0.len();
        let mut i: usize = 0;
        proof {
            assert(self@.skip(0) =~= self@);
        }
        while i < n
            invariant
                n == self@.len(),
                i <= n,
                self@ == self.0@,
                conditions_eval(self@, ep.kind_of(), ep.created_at()) == conditions_eval(
                    self@.skip(i as int),
                    ep.kind_of(),
                    ep.created_at(),
                ),
                forall|k: int|
                    0 <= k < i ==> condition_holds(
                        #[trigger] self@[k],
                        ep.kind_of(),
                        ep.created_at(),
                    ),
            decreases n - i,
        {
            proof {
                assert(self@.skip(i as int)[0] == self@[i as int]);
                assert(self@.skip(i as int).drop_first() =~= self@.skip(i + 1));
            }
            match self.0[i].evaluate(ep) {
                Ok(()) => {
                },
                Err(e) => {
                    return Err(e);
                },
            }
            i += 1;
        }
        proof {
            assert(self@.skip(n as int) =~= Seq::<Condition>::empty());
        }
        Ok(())
    }

    /// The `&`-joined text of the conditions, in their insertion order.
    pub fn to_cond_string(&self) -> (r: String)
        ensures
            r@ == conditions_chars(self@),
    {
        let n = self.0.len();
        let mut out = String::new();
        let mut i: usize = 0;
        proof {
            assert(conditions_chars(self@.take(0)) =~= Seq::<char>::empty());
            assert(out@ =~= conditions_chars(self@.take(0)));
        }
        while i < n
            invariant
                n == self@.len(),
                i <= n,
                self@ == self.0@,
                out@ =~= conditions_chars(self@.take(i as int)),
            decreases n - i,
        {
            if i > 0 {
                out.append("&");
            }
            let c = self.0[i].to_cond_string();
            out.append(c.as_str());
            proof {
                reveal_strlit("&");
                let cur = self@.take(i + 1);
                lemma_conditions_chars_snoc(cur);
                assert(cur.drop_last() =~= self@.take(i as int));
                assert(cur.last() == self@[i as int]);
            }
            i += 1;
        }
        proof {
            assert(self@.take(n as int) =~= self@);
        }
        out
    }

    /// Parse a condition list from its `&`-joined text; the empty text is the
    /// empty list.
    pub fn parse_str(s: &str) -> (r: Result<Conditions, ConditionError>)
        ensures
            match r {
                Ok(cs) => conditions_parsed(s@) == Ok::<Seq<Condition>, ConditionError>(cs@),
                Err(e) => conditions_parsed(s@) == Err::<Seq<Condition>, ConditionError>(e),
            },
    {
        let n = s.unicode_len();
        if n == 0 {
            return Ok(Conditions(Vec::new()));
        }
        let mut out: Vec<Condition> = Vec::new();
        let mut start: usize = 0;
        proof {
            assert(s@.skip(0) =~= s@);
        }
        loop
            invariant_except_break
                conditions_split_parsed(s@) == match conditions_split_parsed(s@.skip(start as int)) {
                    Ok(rest) => Ok::<Seq<Condition>, ConditionError>(out@ + rest),
                    Err(e) => Err::<Seq<Condition>, ConditionError>(e),
                },
            invariant
                n == s@.len(),
                0 < n,
                start <= n,
            ensures
                conditions_split_parsed(s@) == Ok::<Seq<Condition>, ConditionError>(out@),
            decreases n - start,
        {
            let ghost tail = s@.skip(start as int);
            let i = crate::coordinate::find_char(s, '&', start);
            proof {
                lemma_find_shift_skip(s@, '&', start as int);
                assert(tail.take(i - start) =~= s@.subrange(start as int, i as int));
            }
            let seg = s.substring_char(start, i);
            match Condition::parse_str(seg) {
                Ok(c) => {
                    let ghost prev_out = out@;
                    out.push(c);
                    if i == n {
                        proof {
                            assert(conditions_split_parsed(tail) == Ok::<
                                Seq<Condition>,
                                ConditionError,
                            >(seq![c]));
                            assert(prev_out + seq![c] =~= out@);
                        }
                        break ;
                    }
                    proof {
                        assert(tail.skip((i - start) + 1) =~= s@.skip(i + 1));
                        assert(conditions_split_parsed(tail) == match conditions_split_parsed(
                            s@.skip(i + 1),
                        ) {
                            Ok(rest) => Ok::<Seq<Condition>, ConditionError>(seq![c] + rest),
                            Err(e) => Err::<Seq<Condition>, ConditionError>(e),
                        });
                        if conditions_split_parsed(s@.skip(i + 1)) is Ok {
                            let rest = conditions_split_parsed(s@.skip(i + 1))->Ok_0;
                            assert(prev_out + (seq![c] + rest) =~= out@ + rest);
                            assert(conditions_split_parsed(s@) == Ok::<
                                Seq<Condition>,
                                ConditionError,
                            >(out@ + rest));
                        } else {
                            assert(conditions_split_parsed(s@) == conditions_split_parsed(
                                s@.skip(i + 1),
                            ));
                        }
                        assert(conditions_split_parsed(s@) == match conditions_split_parsed(
                            s@.skip(i + 1),
                        ) {
                            Ok(rest) => Ok::<Seq<Condition>, ConditionError>(out@ + rest),
                            Err(e) => Err::<Seq<Condition>, ConditionError>(e),
                        });
                    }
                    start = i + 1;
                },
                Err(e) => {
                    return Err(e);
                },
            }
        }
        Ok(Conditions(out))
    }
}

/// The text of a condition list ends with an ampersand (after a nonempty
/// front) and the last clause.
proof fn lemma_conditions_chars_snoc(cs: Seq<Condition>)
    requires
        cs.len() > 0,
    ensures
        conditions_chars(cs) =~= conditions_chars(cs.drop_last()) + (if cs.len() > 1 {
            seq!['&']
        } else {
            Seq::<char>::empty()
        }) + condition_chars(cs.last()),
    decreases cs.len(),
{
    if cs.len() == 1 {
        assert(cs.drop_last() =~= Seq::<Condition>::empty());
    } else {
        lemma_conditions_chars_snoc(cs.drop_first());
        assert(cs.drop_first().drop_last() =~= cs.drop_last().drop_first());
        assert(cs.drop_first().last() == cs.last());
        assert(cs.drop_last().len() > 0);
        assert(cs.drop_last()[0] == cs[0]);
        if cs.len() == 2 {
            assert(conditions_chars(cs.drop_last()) =~= condition_chars(cs[0]));
            assert(conditions_chars(cs) =~= condition_chars(cs[0]) + seq!['&'] + conditions_chars(
                cs.drop_first(),
            ));
            assert(conditions_chars(cs.drop_first()) =~= condition_chars(cs.last()));
        } else {
            assert(conditions_chars(cs) =~= condition_chars(cs[0]) + seq!['&'] + conditions_chars(
                cs.drop_first(),
            ));
            assert(conditions_chars(cs.drop_last()) =~= condition_chars(cs[0]) + seq!['&']
                + conditions_chars(cs.drop_last().drop_first()));
        }
    }
}

/// Searching from a later start is searching the skipped copy.
proof fn lemma_find_shift_skip(s: Seq<char>, c: char, start: int)
    requires
        0 <= start <= s.len(),
    ensures
        find_char_from(s, c, start) == start + find_char_from(s.skip(start), c, 0),
    decreases s.len() - start,
{
    let b = s.skip(start);
    lemma_find_char_shift_local(b, c, 0, s, start);
}

/// Searching a suffix copy finds the same place, shifted.
proof fn lemma_find_char_shift_local(b: Seq<char>, c: char, from: int, s: Seq<char>, offset: int)
    requires
        0 <= from <= b.len(),
        0 <= offset,
        s.len() == offset + b.len(),
        forall|k: int| 0 <= k < b.len() ==> s[offset + k] == b[k],
    ensures
        find_char_from(s, c, offset + from) == offset + find_char_from(b, c, from),
    decreases b.len() - from,
{
    if from < b.len() {
        if b[from] != c {
            lemma_find_char_shift_local(b, c, from + 1, s, offset);
        }
    }
}

/// The token text a delegation signs: `nostr:delegation:<delegatee>:<conditions>`.
pub open spec fn delegation_token_chars(delegatee_pk: Seq<u8>, conds: Seq<Condition>) -> Seq<
    char,
> {
    "nostr:delegation:"@ + hex_of(delegatee_pk) + seq![':'] + conditions_chars(conds)
}

/// The token a delegator signs to grant a delegation.
#[derive(Debug, Clone)]
pub struct DelegationToken {
    token: String,
}

impl View for DelegationToken {
    type V = Seq<char>;

    closed spec fn view(&self) -> Seq<char> {
        self.token@
    }
}

impl DelegationToken {
    /// Build the token text for a delegatee and conditions; this never fails.
    pub fn new(delegatee_pkey: &NostrPubKey, conditions: &Conditions) -> (r: Result<
        DelegationToken,
        AsymmetricKeyError,
    >)
        ensures
            match r {
                Ok(t) => t@ == delegation_token_chars(delegatee_pkey@, conditions@),
                Err(_) => false,
            },
    {
        let pk_hex = bytes_to_hex(delegatee_pkey.as_bytes().as_slice());
        let conds = conditions.to_cond_string();
        let mut token = String::from_str("nostr:delegation:");
        token.append(pk_hex.as_str());
        token.append(":");
        token.append(conds.as_str());
        proof {
            reveal_strlit(":");
            assert(token@ =~= delegation_token_chars(delegatee_pkey@, conditions@));
        }
        Ok(DelegationToken { token })
    }

    /// The token's UTF-8 bytes: what is signed and verified.
    pub fn as_bytes(&self) -> (r: &[u8])
        ensures
            r@ == encode_utf8(self@),
    {
        self.token.as_str().as_bytes()
    }

    /// The token text.
    pub fn as_str(&self) -> (r: &str)
        ensures
            r@ == self@,
    {
        self.token.as_str()
    }

    /// Sign the token bytes with the delegator's key and the given
    /// randomness. The signature depends on that randomness, so its value is
    /// not pinned; whatever comes back verifies over the token bytes under
    /// the delegator's public key.
    pub fn generate_signature(
        &self,
        delegator_skey: &SchnorrSigningKey,
        rngcore: &mut CryptoHashRng,
    ) -> (r: Result<NostrSignature, AsymmetricKeyError>)
        ensures
            match r {
                Ok(sig) => sig@.len() == 64
                    && crate::assymetric_secp256k1::is_valid_signature_bytes(sig@)
                    && schnorr_verifies(
                    encode_utf8(self@),
                    delegator_skey.public_bytes(),
                    sig@,
                ),
                Err(e) => e == AsymmetricKeyError::ProtocolError,
            },
    {
        let ecda = AssymetricSecp256k1();
        ecda.generate_signature_from_bytes(self.as_bytes(), delegator_skey, rngcore)
    }

    /// Verify a signature over the token bytes against the delegator's key.
    pub fn verify_signature(&self, delegator_pkey: &NostrPubKey, signature: &NostrSignature) -> (r:
        Result<(), AsymmetricKeyError>)
        ensures
            r is Ok <==> schnorr_verifies(encode_utf8(self@), delegator_pkey@, signature@),
            r is Err ==> r->Err_0 == AsymmetricKeyError::ProtocolError,
    {
        let ecda = AssymetricSecp256k1();
        ecda.verifying_signature_from_bytes(self.as_bytes(), delegator_pkey, signature)
    }
}

/// The JSON rendering of a delegation tag: a four-string array of the
/// `delegation` marker, the delegator key in hex, the conditions text and the
/// signature in hex. None of these need JSON escaping.
pub open spec fn delegation_tag_json_chars(pk: Seq<u8>, conds: Seq<Condition>, sig: Seq<u8>) -> Seq<
    char,
> {
    "[\"delegation\",\""@ + hex_of(pk) + "\",\""@ + conditions_chars(conds) + "\",\""@ + hex_of(
        sig,
    ) + "\"]"@
}

/// What a delegation tag reads out of four JSON strings: the `delegation`
/// marker, a delegator key (hex or bech32), a conditions text and a hex
/// signature.
pub open spec fn delegation_tag_from_tokens(toks: Seq<Seq<char>>, t: DelegationTag) -> bool {
    &&& toks.len() == 4
    &&& toks[0] == "delegation"@
    &&& crate::signing::pubkey_bytes_ok(t.delegator_view())
    &&& (if public_key_hex_ok(toks[1]) {
        t.delegator_view() == hex_bytes_of(toks[1])
    } else {
        bech32_payload(toks[1], "npub"@) == Some(t.delegator_view())
    })
    &&& conditions_parsed(toks[2]) == Ok::<Seq<Condition>, ConditionError>(t.conditions_view())
    &&& is_hex_str(toks[3])
    &&& hex_bytes_of(toks[3]).len() == 64
    &&& crate::assymetric_secp256k1::is_valid_signature_bytes(hex_bytes_of(toks[3]))
    &&& t.signature_view() == hex_bytes_of(toks[3])
}

/// A delegation tag: the delegator's key, the conditions, and the delegator's
/// signature over the matching token.
#[derive(Debug, PartialEq, Eq)]
pub struct DelegationTag {
    delegator_pubkey: NostrPubKey,
    conditions: Conditions,
    signature: NostrSignature,
}

impl Clone for DelegationTag {
    fn clone(&self) -> (r: DelegationTag)
        ensures
            r.delegator_view() == self.delegator_view(),
            r.conditions_view() == self.conditions_view(),
            r.signature_view() == self.signature_view(),
    {
        proof {
            use_type_invariant(self);
        }
        DelegationTag {
            delegator_pubkey: self.delegator_pubkey.clone(),
            conditions: self.conditions.clone(),
            signature: self.signature.clone(),
        }
    }
}

impl DelegationTag {
    /// The stored signature bytes are always well-formed on the curve.
    #[verifier::type_invariant]
    closed spec fn type_inv(self) -> bool {
        crate::assymetric_secp256k1::is_valid_signature_bytes(self.signature@)
    }

    /// The delegator key's bytes.
    pub closed spec fn delegator_view(&self) -> Seq<u8> {
        self.delegator_pubkey@
    }

    /// The conditions held.
    pub closed spec fn conditions_view(&self) -> Seq<Condition> {
        self.conditions@
    }

    /// The signature's bytes.
    pub closed spec fn signature_view(&self) -> Seq<u8> {
        self.signature@
    }

    /// Issue a delegation: sign the token for the delegatee and conditions
    /// with the delegator's key; the stored delegator key is derived from
    /// that key, never taken on trust.
    pub fn new(
        delegator_skey: &SchnorrSigningKey,
        delegatee_pkey: NostrPubKey,
        conditions: Conditions,
        rng: &mut CryptoHashRng,
    ) -> (r: Result<DelegationTag, AsymmetricKeyError>)
        ensures
            match r {
                Ok(t) => t.delegator_view() == pubkey_of_secret(delegator_skey.secret_bytes())
                    && t.conditions_view() == conditions@ && t.signature_view().len() == 64
                    && schnorr_verifies(
                    encode_utf8(delegation_token_chars(delegatee_pkey@, conditions@)),
                    t.delegator_view(),
                    t.signature_view(),
                ),
                Err(e) => e == AsymmetricKeyError::ProtocolError,
            },
    {
        let dtoken = match DelegationToken::new(&delegatee_pkey, &conditions) {
            Ok(t) => t,
            Err(_) => {
                proof {
                    assert(false);
                }
                return Err(AsymmetricKeyError::ProtocolError);
            },
        };
        let signvalue = dtoken.generate_signature(delegator_skey, rng)?;
        let ecda = AssymetricSecp256k1();
        let dpk = ecda.pubkey_from_pair(delegator_skey);
        Ok(DelegationTag { delegator_pubkey: dpk, conditions, signature: signvalue })
    }

    /// Validate the claim made now: rebuild the token from the delegatee and
    /// conditions the caller names (not the stored ones) and verify the
    /// stored signature over it against the stored delegator key.
    pub fn validate(&self, delegatee_pkey: &NostrPubKey, conditions: &Conditions) -> (r: Result<
        (),
        ConditionError,
    >)
        ensures
            r is Ok <==> schnorr_verifies(
                encode_utf8(delegation_token_chars(delegatee_pkey@, conditions@)),
                self.delegator_view(),
                self.signature_view(),
            ),
            r is Err ==> r->Err_0 == ConditionError::Keys(AsymmetricKeyError::ProtocolError),
    {
        let dtoken = match DelegationToken::new(delegatee_pkey, conditions) {
            Ok(t) => t,
            Err(_) => {
                proof {
                    assert(false);
                }
                return Err(ConditionError::DelegationTagParse);
            },
        };
        match dtoken.verify_signature(&self.delegator_pubkey, &self.signature) {
            Ok(()) => Ok(()),
            Err(e) => Err(ConditionError::Keys(e)),
        }
    }

    /// The tag as its JSON string.
    pub fn as_json(&self) -> (r: String)
        ensures
            r@ == delegation_tag_json_chars(
                self.delegator_view(),
                self.conditions_view(),
                self.signature_view(),
            ),
    {
        let pk_hex = bytes_to_hex(self.delegator_pubkey.as_bytes().as_slice());
        let conds = self.conditions.to_cond_string();
        let sig_hex = bytes_to_hex(self.signature.as_bytes().as_slice());
        let mut out = String::from_str("[\"delegation\",\"");
        out.append(pk_hex.as_str());
        out.append("\",\"");
        out.append(conds.as_str());
        out.append("\",\"");
        out.append(sig_hex.as_str());
        out.append("\"]");
        proof {
            assert(out@ =~= delegation_tag_json_chars(
                self.delegator_view(),
                self.conditions_view(),
                self.signature_view(),
            ));
        }
        out
    }

    /// Read a tag out of four tokens: the `delegation` marker, the delegator
    /// key, the conditions text, the signature hex. A list of the wrong
    /// length, or with another marker, is a tag-shape failure.
    pub fn try_from_tokens(tag: &Vec<String>) -> (r: Result<DelegationTag, ConditionError>)
        ensures
            match r {
                Ok(t) => delegation_tag_from_tokens(tag.deep_view(), t),
                Err(e) => {
                    &&& !exists|t: DelegationTag| delegation_tag_from_tokens(tag.deep_view(), t)
                    &&& ((tag.deep_view().len() != 4 || tag.deep_view()[0] != "delegation"@)
                        ==> e == ConditionError::DelegationTagParse)
                },
            },
    {
        let ghost toks = tag.deep_view();
        proof {
            assert(toks.len() == tag@.len());
        }
        if tag.len() != 4 {
            proof {
                assert forall|t: DelegationTag| !delegation_tag_from_tokens(toks, t) by {}
            }
            return Err(ConditionError::DelegationTagParse);
        }
        proof {
            assert forall|k: int| 0 <= k < 4 implies #[trigger] toks[k] == tag@[k]@ by {}
        }
        if !crate::nostrbech32::str_eq_chars(tag[0].as_str(), "delegation") {
            proof {
                assert forall|t: DelegationTag| !delegation_tag_from_tokens(toks, t) by {}
            }
            return Err(ConditionError::DelegationTagParse);
        }
        let delegator_pubkey = match NostrPubKey::parse_str(tag[1].as_str()) {
            Ok(k) => k,
            Err(e) => {
                proof {
                    assert forall|t: DelegationTag| !delegation_tag_from_tokens(toks, t) by {}
                }
                return Err(ConditionError::Keys(e));
            },
        };
        let conditions = match Conditions::parse_str(tag[2].as_str()) {
            Ok(c) => c,
            Err(e) => {
                proof {
                    assert forall|t: DelegationTag| !delegation_tag_from_tokens(toks, t) by {}
                }
                return Err(e);
            },
        };
        let signature = match NostrSignature::parse_str(tag[3].as_str()) {
            Ok(s) => s,
            Err(e) => {
                proof {
                    assert forall|t: DelegationTag| !delegation_tag_from_tokens(toks, t) by {}
                }
                return Err(ConditionError::Keys(e));
            },
        };
        Ok(DelegationTag { delegator_pubkey, conditions, signature })
    }

    /// Parse a tag from its JSON string. Text that is not a JSON string
    /// array, or an array of the wrong shape, is a tag-shape failure.
    pub fn from_json(s: &str) -> (r: Result<DelegationTag, ConditionError>)
        ensures
            match r {
                Ok(t) => json_string_list(s@) matches Some(toks) && delegation_tag_from_tokens(
                    toks,
                    t,
                ),
                Err(e) => match json_string_list(s@) {
                    Some(toks) => {
                        &&& !exists|t: DelegationTag| delegation_tag_from_tokens(toks, t)
                        &&& ((toks.len() != 4 || toks[0] != "delegation"@) ==> e
                            == ConditionError::DelegationTagParse)
                    },
                    None => e == ConditionError::DelegationTagParse,
                },
            },
    {
        let tag = match json_parse_string_array(s) {
            Some(v) => v,
            None => {
                return Err(ConditionError::DelegationTagParse);
            },
        };
        Self::try_from_tokens(&tag)
    }

    /// The delegator's key.
    pub fn delegator_pubkey(&self) -> (r: NostrPubKey)
        ensures
            r@ == self.delegator_view(),
    {
        self.delegator_pubkey.clone()
    }

    /// The conditions.
    pub fn conditions(&self) -> (r: Conditions)
        ensures
            r@ == self.conditions_view(),
    {
        self.conditions.clone()
    }

    /// The signature.
    pub fn signature(&self) -> (r: NostrSignature)
        ensures
            r@ == self.signature_view(),
    {
        self.signature.clone()
    }
}

/// What the JSON parser reads a string-array text as; a function of the text
/// alone.
pub uninterp spec fn json_string_list(s: Seq<char>) -> Option<Seq<Seq<char>>>;

/// Relies on serde_json::from_str for Vec<String>: accepts exactly the JSON
/// arrays whose elements are strings, and its result is a function of the
/// text alone.
#[verifier::external_body]
fn json_parse_string_array(s: &str) -> (r: Option<Vec<String>>)
    ensures
        match r {
            Some(v) => json_string_list(s@) == Some(v.deep_view()),
            None => json_string_list(s@) is None,
        },
{
    serde_json::from_str::<Vec<String>>(s).ok()
}

} // verus!
