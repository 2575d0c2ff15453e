//! Production logging support: redaction of sensitive values and trace
//! contexts for distributed tracing.

use crate::codec::{is_uuid_v4_text, uuid_v4_text};
use crate::protocol::messages::opt_text;
use crate::text::{
    append, chars_of, is_numeric_char, lemma_split_on_nonempty, numeric_char, owned, push_char, split_chars, split_on,
    str_has_char, string_of,
};
use vstd::prelude::*;

verus! {

/// A character std counts as numeric (`char::is_numeric`).
pub open spec fn counts_as_numeric(c: char) -> bool {
    numeric_char(c)
}

/// The number of numeric characters in `s`.
pub open spec fn digit_count(s: Seq<char>) -> nat
    decreases s.len(),
{
    if s.len() == 0 {
        0
    } else {
        digit_count(s.drop_last()) + if counts_as_numeric(s.last()) { 1nat } else { 0nat }
    }
}

/// Every character is numeric or a dash.
pub open spec fn digits_and_dashes(s: Seq<char>) -> bool {
    forall|i: int| 0 <= i < s.len() ==> counts_as_numeric(#[trigger] s[i]) || s[i] == '-'
}

/// The value looks like a card number: sixteen numeric characters, and
/// dashes.
pub open spec fn looks_like_card(s: Seq<char>) -> bool {
    digit_count(s) == 16 && digits_and_dashes(s)
}

/// What a value becomes in a production log: an API key (it has both `:`
/// and `.`) and a card number are replaced, an email address keeps the
/// first character of its local part, anything else is kept.
pub open spec fn spec_redact_sensitive(v: Seq<char>) -> Seq<char> {
    if v.contains(':') && v.contains('.') {
        "[API_KEY_REDACTED]"@
    } else if looks_like_card(v) {
        "[CARD_REDACTED]"@
    } else if v.contains('@') && split_on(v, '@').len() == 2 {
        seq![split_on(v, '@')[0][0]] + "@[REDACTED]"@
    } else {
        v
    }
}

/// The email redaction takes the first character of the local part: it
/// must be there, and be a single byte.
pub open spec fn redactable(v: Seq<char>) -> bool {
    (v.contains(':') && v.contains('.')) || looks_like_card(v) || !(v.contains('@') && split_on(v, '@').len() == 2)
        || (split_on(v, '@')[0].len() > 0 && (split_on(v, '@')[0][0] as u32) < 128)
}

fn card_like(v: &Vec<char>) -> (b: bool)
    ensures
        b == looks_like_card(v@),
{
    let mut digits: usize = 0;
    let mut ok = true;
    let mut i: usize = 0;
    while i < v.len()
        invariant
            0 <= i <= v@.len(),
            digits == digit_count(v@.subrange(0, i as int)),
            digits <= i,
            ok == digits_and_dashes(v@.subrange(0, i as int)),
        decreases v@.len() - i,
    {
        let c = v[i];
        proof {
            assert(v@.subrange(0, i + 1).drop_last() =~= v@.subrange(0, i as int));
            assert(v@.subrange(0, i + 1).last() == c);
        }
        if is_numeric_char(c) {
            digits = digits + 1;
        } else if c != '-' {
            ok = false;
        }
        proof {
            let s1 = v@.subrange(0, i + 1);
            let s0 = v@.subrange(0, i as int);
            if ok {
                assert forall|j: int| 0 <= j < s1.len() implies counts_as_numeric(#[trigger] s1[j]) || s1[j] == '-' by {
                    if j < i {
                        assert(s1[j] == s0[j]);
                    }
                }
            } else {
                if digits_and_dashes(s0) {
                    assert(!(counts_as_numeric(s1[i as int]) || s1[i as int] == '-'));
                } else {
                    let j = choose|j: int| 0 <= j < s0.len() && !(counts_as_numeric(#[trigger] s0[j]) || s0[j] == '-');
                    assert(s1[j] == s0[j]);
                }
            }
        }
        i = i + 1;
    }
    assert(v@.subrange(0, v@.len() as int) =~= v@);
    digits == 16 && ok
}

/// What a value becomes in a production log.
pub fn redact_sensitive(value: &str) -> (s: String)
    requires
        redactable(value@),
    ensures
        s@ == spec_redact_sensitive(value@),
{
    if str_has_char(value, ':') && str_has_char(value, '.') {
        return owned("[API_KEY_REDACTED]");
    }
    let chars = chars_of(value);
    if card_like(&chars) {
        return owned("[CARD_REDACTED]");
    }
    if str_has_char(value, '@') {
        let parts = split_chars(&chars, '@');
        if parts.len() == 2 {
            proof {
                assert(parts@[0]@ == split_on(value@, '@')[0]);
            }
            let first = parts[0][0];
            let mut s = String::new();
            push_char(&mut s, first);
            append(&mut s, "@[REDACTED]");
            proof {
                assert(s@ =~= seq![first] + "@[REDACTED]"@);
            }
            return s;
        }
    }
    owned(value)
}

/// The ids that place a span in a distributed trace.
#[derive(Debug, Clone)]
pub struct TraceContext {
    pub trace_id: String,
    pub span_id: String,
    pub parent_span_id: Option<String>,
}

impl TraceContext {
    /// A new trace with a fresh root span.
    pub fn new() -> (t: TraceContext)
        ensures
            is_uuid_v4_text(t.trace_id@),
            is_uuid_v4_text(t.span_id@),
            t.parent_span_id is None,
    {
        TraceContext { trace_id: uuid_v4_text(), span_id: uuid_v4_text(), parent_span_id: None }
    }

    /// A fresh span in the same trace, child of this one.
    pub fn child(&self) -> (t: TraceContext)
        ensures
            t.trace_id@ == self.trace_id@,
            is_uuid_v4_text(t.span_id@),
            opt_text(t.parent_span_id) == Some(self.span_id@),
    {
        TraceContext {
            trace_id: self.trace_id.clone(),
            span_id: uuid_v4_text(),
            parent_span_id: Some(self.span_id.clone()),
        }
    }
}

} // verus!
