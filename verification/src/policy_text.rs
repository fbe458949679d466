//! The policy source format: one rule per line, each line
//! `permit <Action>` or `forbid <Action>`, optionally followed by
//! `when <attr>` to demand that the resource's named attribute reference
//! the requesting principal.  Every line ends with a newline.  Malformed
//! text is a startup-time configuration error.

use vstd::prelude::*;

use crate::entities::EntityUid;
use crate::error::ConfigError;
use crate::policy::{Condition, Effect, Policy, PolicySet, PolicyV, ScopePattern, ScopePatternV};
use crate::text::{ident_chars_from, is_ident, is_ident_char, is_ident_start};

verus! {

/// The keyword of an effect.
pub open spec fn effect_text(e: Effect) -> Seq<char> {
    match e {
        Effect::Permit => "permit"@,
        Effect::Forbid => "forbid"@,
    }
}

/// Whether a rule can be written in the policy source format: wildcard
/// principal and resource scopes, a specific action with an identifier
/// name, and an identifier condition attribute if any.
pub open spec fn textable(p: PolicyV) -> bool {
    &&& p.principal is Any
    &&& p.resource is Any
    &&& match p.action {
        ScopePatternV::Is(u) => u.etype == "Action"@ && is_ident(u.eid),
        ScopePatternV::Any => false,
    }
    &&& match p.when {
        Some(c) => is_ident(c.attr),
        None => true,
    }
}

/// Whether every rule of the set can be written in the source format.
pub open spec fn all_textable(ps: Seq<PolicyV>) -> bool {
    forall|i: int| 0 <= i < ps.len() ==> textable(#[trigger] ps[i])
}

/// The name of a rule's specific action.
pub open spec fn action_name_of(p: PolicyV) -> Seq<char> {
    match p.action {
        ScopePatternV::Is(u) => u.eid,
        ScopePatternV::Any => Seq::empty(),
    }
}

/// The source line of one rule, without its newline.
pub open spec fn policy_line(p: PolicyV) -> Seq<char> {
    effect_text(p.effect) + " "@ + action_name_of(p) + (match p.when {
        Some(c) => " when "@ + c.attr,
        None => Seq::empty(),
    })
}

/// The source text of the rules from position `i` on: each rule's line
/// followed by a newline.
pub open spec fn policies_text(ps: Seq<PolicyV>, i: int) -> Seq<char>
    decreases ps.len() - i,
{
    if i < 0 || i >= ps.len() {
        Seq::empty()
    } else {
        policy_line(ps[i]) + "\n"@ + policies_text(ps, i + 1)
    }
}

/// Appending a rule appends its line to the text.
proof fn lemma_policies_text_push(ps: Seq<PolicyV>, p: PolicyV, i: int)
    requires
        0 <= i <= ps.len(),
    ensures
        policies_text(ps.push(p), i) == policies_text(ps, i) + policy_line(p) + "\n"@,
    decreases ps.len() - i,
{
    reveal_with_fuel(policies_text, 3);
    if i == ps.len() {
        assert(policies_text(ps.push(p), i) =~= policy_line(p) + "\n"@ + Seq::empty());
        assert(policies_text(ps.push(p), i) =~= policies_text(ps, i) + policy_line(p) + "\n"@);
    } else {
        lemma_policies_text_push(ps, p, i + 1);
        assert(ps.push(p)[i] == ps[i]);
        assert(policies_text(ps.push(p), i) =~= policies_text(ps, i) + policy_line(p) + "\n"@);
    }
}

/// A sequence whose characters from `i` on may all continue an identifier
/// satisfies the recursive check.
proof fn lemma_ident_chars_all(s: Seq<char>, i: int)
    requires
        forall|j: int| i <= j < s.len() ==> is_ident_char(#[trigger] s[j]),
    ensures
        ident_chars_from(s, i),
    decreases s.len() - i,
{
    if 0 <= i && i < s.len() {
        lemma_ident_chars_all(s, i + 1);
    }
}

/// The recursive identifier check implies every character from `i` on may
/// continue an identifier.
proof fn lemma_ident_chars_pointwise(s: Seq<char>, i: int)
    requires
        0 <= i,
        ident_chars_from(s, i),
    ensures
        forall|j: int| i <= j < s.len() ==> is_ident_char(#[trigger] s[j]),
    decreases s.len() - i,
{
    if i < s.len() {
        lemma_ident_chars_pointwise(s, i + 1);
    }
}

/// An identifier's characters are all identifier characters, and never a
/// newline or a space.
proof fn lemma_ident_pointwise(s: Seq<char>)
    requires
        is_ident(s),
    ensures
        s.len() >= 1,
        is_ident_start(s[0]),
        forall|j: int| 0 <= j < s.len() ==> is_ident_char(#[trigger] s[j]),
        forall|j: int| 0 <= j < s.len() ==> #[trigger] s[j] != '\n',
        forall|j: int| 0 <= j < s.len() ==> #[trigger] s[j] != ' ',
{
    lemma_ident_chars_pointwise(s, 1);
    assert(is_ident_char(s[0]));
    assert(forall|c: char| is_ident_char(c) ==> c != '\n' && c != ' ');
}

/// The shape a rendered rule line gives to the text holding it: the
/// effect keyword, one space, the action name, and the optional
/// condition suffix, with all positions pinned.
proof fn lemma_line_shape(s: Seq<char>, a: int, b: int, q: PolicyV)
    requires
        0 <= a <= b <= s.len(),
        textable(q),
        s.subrange(a, b) == policy_line(q),
    ensures
        b - a >= 8,
        s.subrange(a, a + 6) == effect_text(q.effect),
        s[a + 6] == ' ',
        a + 7 + action_name_of(q).len() <= b,
        s.subrange(a + 7, a + 7 + action_name_of(q).len() as int) == action_name_of(q),
        is_ident(action_name_of(q)),
        match q.when {
            None => b == a + 7 + action_name_of(q).len(),
            Some(c) => {
                let m = a + 7 + action_name_of(q).len() as int;
                &&& is_ident(c.attr)
                &&& m + 6 + c.attr.len() == b
                &&& s.subrange(m, m + 6) == " when "@
                &&& s.subrange(m + 6, b) == c.attr
            },
        },
{
    reveal_strlit("permit");
    reveal_strlit("forbid");
    reveal_strlit(" ");
    reveal_strlit(" when ");
    let line = policy_line(q);
    let nm = action_name_of(q);
    assert(effect_text(q.effect).len() == 6);
    assert(nm.len() >= 1);
    assert(line.len() == 7 + nm.len() + (match q.when {
        Some(c) => 6 + c.attr.len(),
        None => 0,
    }));
    assert forall|t: int| 0 <= t < 6 implies s.subrange(a, a + 6)[t] == effect_text(q.effect)[t] by {
        assert(s.subrange(a, b)[t] == s[a + t]);
        assert(line[t] == effect_text(q.effect)[t]);
    }
    assert(s.subrange(a, a + 6) =~= effect_text(q.effect));
    assert(line[6] == " "@[0]);
    assert(s.subrange(a, b)[6] == s[a + 6]);
    assert(s[a + 6] == ' ');
    assert forall|t: int| 0 <= t < nm.len() implies s.subrange(a + 7, a + 7 + nm.len() as int)[t]
        == nm[t] by {
        assert(s.subrange(a, b)[7 + t] == s[a + 7 + t]);
        assert(line[7 + t] == nm[t]);
    }
    assert(s.subrange(a + 7, a + 7 + nm.len() as int) =~= nm);
    match q.when {
        None => {
        },
        Some(c) => {
            let m = a + 7 + nm.len() as int;
            assert forall|t: int| 0 <= t < 6 implies s.subrange(m, m + 6)[t] == " when "@[t] by {
                assert(s.subrange(a, b)[m - a + t] == s[m + t]);
                assert(line[m - a + t] == " when "@[t]);
            }
            assert(s.subrange(m, m + 6) =~= " when "@);
            assert forall|t: int| 0 <= t < c.attr.len() implies s.subrange(m + 6, b)[t]
                == c.attr[t] by {
                assert(s.subrange(a, b)[m + 6 - a + t] == s[m + 6 + t]);
                assert(line[m + 6 - a + t] == c.attr[t]);
            }
            assert(s.subrange(m + 6, b) =~= c.attr);
        },
    }
}

/// Scanning identifier characters after the effect keyword and its space
/// stops exactly at the end of the rendered action name.
proof fn lemma_scan_pins_name(s: Seq<char>, a: int, b: int, q: PolicyV, ne: int)
    requires
        0 <= a <= b <= s.len(),
        textable(q),
        s.subrange(a, b) == policy_line(q),
        a + 7 <= ne <= b,
        forall|j: int| a + 7 <= j < ne ==> is_ident_char(#[trigger] s[j]),
        ne < b ==> !is_ident_char(s[ne]),
    ensures
        ne == a + 7 + action_name_of(q).len(),
{
    reveal_strlit(" when ");
    lemma_line_shape(s, a, b, q);
    let nm = action_name_of(q);
    lemma_ident_pointwise(nm);
    let m0 = a + 7 + nm.len() as int;
    assert forall|t: int| 0 <= t < nm.len() implies is_ident_char(#[trigger] s[a + 7 + t]) by {
        assert(s.subrange(a + 7, m0)[t] == s[a + 7 + t]);
        assert(is_ident_char(nm[t]));
    }
    if ne < m0 {
        assert(s[a + 7 + (ne - a - 7)] == s[ne]);
        assert(is_ident_char(s[ne]));
        assert(false);
    }
    if ne > m0 {
        match q.when {
            None => {
                assert(m0 == b);
                assert(false);
            },
            Some(c) => {
                assert(s.subrange(m0, m0 + 6)[0] == s[m0]);
                assert(s[m0] == ' ');
                assert(!is_ident_char(' '));
                assert(is_ident_char(s[m0]));
                assert(false);
            },
        }
    }
}

/// A rendered rule line never holds a newline.
proof fn lemma_line_newline_free(s: Seq<char>, a: int, b: int, q: PolicyV)
    requires
        0 <= a <= b <= s.len(),
        textable(q),
        s.subrange(a, b) == policy_line(q),
    ensures
        forall|j: int| a <= j < b ==> #[trigger] s[j] != '\n',
{
    reveal_strlit("permit");
    reveal_strlit("forbid");
    reveal_strlit(" when ");
    lemma_line_shape(s, a, b, q);
    let nm = action_name_of(q);
    lemma_ident_pointwise(nm);
    assert forall|j: int| a <= j < b implies #[trigger] s[j] != '\n' by {
        if j < a + 6 {
            assert(s.subrange(a, a + 6)[j - a] == s[j]);
            assert(effect_text(q.effect)[j - a] != '\n');
        } else if j == a + 6 {
        } else if j < a + 7 + nm.len() {
            assert(s.subrange(a + 7, a + 7 + nm.len() as int)[j - a - 7] == s[j]);
            assert(nm[j - a - 7] != '\n');
        } else {
            match q.when {
                None => {
                },
                Some(c) => {
                    let m = a + 7 + nm.len() as int;
                    lemma_ident_pointwise(c.attr);
                    if j < m + 6 {
                        assert(s.subrange(m, m + 6)[j - m] == s[j]);
                        assert(" when "@[j - m] != '\n');
                    } else {
                        assert(s.subrange(m + 6, b)[j - m - 6] == s[j]);
                        assert(c.attr[j - m - 6] != '\n');
                    }
                },
            }
        }
    }
}

/// Decides whether `lit` occurs in `s` starting at `start`.
fn match_lit(s: &str, start: usize, lit: &str) -> (r: bool)
    requires
        start <= s@.len(),
    ensures
        r == (start + lit@.len() <= s@.len() && s@.subrange(
            start as int,
            start as int + lit@.len(),
        ) == lit@),
{
    let n = s.unicode_len();
    let m = lit.unicode_len();
    if m > n - start {
        return false;
    }
    let mut j: usize = 0;
    while j < m
        invariant
            0 <= j <= m,
            start + m <= n,
            n == s@.len(),
            m == lit@.len(),
            forall|t: int| 0 <= t < j ==> s@[start + t] == lit@[t],
        decreases m - j,
    {
        if s.get_char(start + j) != lit.get_char(j) {
            proof {
                assert(s@.subrange(start as int, start as int + m) == lit@ ==> s@.subrange(
                    start as int,
                    start as int + m,
                )[j as int] == lit@[j as int]);
            }
            return false;
        }
        j = j + 1;
    }
    proof {
        assert(s@.subrange(start as int, start as int + m) =~= lit@);
    }
    true
}

/// The position of the first newline at or after `start`, or the length.
fn find_newline(s: &str, start: usize) -> (r: usize)
    requires
        start <= s@.len(),
    ensures
        start <= r <= s@.len(),
        forall|j: int| start <= j < r ==> s@[j] != '\n',
        r < s@.len() ==> s@[r as int] == '\n',
{
    let n = s.unicode_len();
    let mut i: usize = start;
    while i < n
        invariant
            start <= i <= n,
            n == s@.len(),
            forall|j: int| start <= j < i ==> s@[j] != '\n',
        decreases n - i,
    {
        if s.get_char(i) == '\n' {
            return i;
        }
        i = i + 1;
    }
    i
}

/// The position of the first character at or after `start` and before
/// `end` that cannot continue an identifier, or `end`.
fn scan_ident(s: &str, start: usize, end: usize) -> (r: usize)
    requires
        start <= end <= s@.len(),
    ensures
        start <= r <= end,
        forall|j: int| start <= j < r ==> is_ident_char(s@[j]),
        r < end ==> !is_ident_char(s@[r as int]),
    decreases end - start,
{
    let mut i: usize = start;
    while i < end
        invariant
            start <= i <= end,
            end <= s@.len(),
            forall|j: int| start <= j < i ==> is_ident_char(s@[j]),
        decreases end - i,
    {
        if !crate::text::check_ident_char(s.get_char(i)) {
            return i;
        }
        i = i + 1;
    }
    i
}

/// A segment is the rendering of at most one rule: two rules in the
/// source format rendering to the same line are the same rule.
proof fn lemma_policy_line_injective(s: Seq<char>, a: int, b: int, p: PolicyV, q: PolicyV)
    requires
        0 <= a <= b <= s.len(),
        textable(p),
        textable(q),
        s.subrange(a, b) == policy_line(p),
        s.subrange(a, b) == policy_line(q),
    ensures
        p == q,
{
    reveal_strlit("permit");
    reveal_strlit("forbid");
    reveal_strlit(" when ");
    lemma_line_shape(s, a, b, p);
    lemma_line_shape(s, a, b, q);
    let nmp = action_name_of(p);
    let nmq = action_name_of(q);
    lemma_ident_pointwise(nmp);
    lemma_ident_pointwise(nmq);
    assert(effect_text(p.effect) == effect_text(q.effect));
    assert("permit"@[0] == 'p' && "forbid"@[0] == 'f');
    assert(p.effect == q.effect);
    assert forall|t: int| 0 <= t < nmp.len() implies is_ident_char(#[trigger] s[a + 7 + t]) by {
        assert(s.subrange(a + 7, a + 7 + nmp.len() as int)[t] == s[a + 7 + t]);
        assert(is_ident_char(nmp[t]));
    }
    assert forall|t: int| 0 <= t < nmq.len() implies is_ident_char(#[trigger] s[a + 7 + t]) by {
        assert(s.subrange(a + 7, a + 7 + nmq.len() as int)[t] == s[a + 7 + t]);
        assert(is_ident_char(nmq[t]));
    }
    if nmp.len() < nmq.len() {
        assert(is_ident_char(s[a + 7 + nmp.len()]));
        match p.when {
            None => {
                assert(b == a + 7 + nmp.len());
                assert(a + 7 + nmp.len() < a + 7 + nmq.len() <= b);
                assert(false);
            },
            Some(c) => {
                let m = a + 7 + nmp.len() as int;
                assert(s.subrange(m, m + 6)[0] == s[m]);
                assert(s[m] == ' ');
                assert(!is_ident_char(' '));
                assert(false);
            },
        }
    }
    if nmq.len() < nmp.len() {
        assert(is_ident_char(s[a + 7 + nmq.len()]));
        match q.when {
            None => {
                assert(b == a + 7 + nmq.len());
                assert(a + 7 + nmq.len() < a + 7 + nmp.len() <= b);
                assert(false);
            },
            Some(c) => {
                let m = a + 7 + nmq.len() as int;
                assert(s.subrange(m, m + 6)[0] == s[m]);
                assert(s[m] == ' ');
                assert(!is_ident_char(' '));
                assert(false);
            },
        }
    }
    assert(nmp.len() == nmq.len());
    assert(nmp == nmq);
    match p.action {
        ScopePatternV::Is(u) => {
            match q.action {
                ScopePatternV::Is(v) => {
                    assert(u =~= v);
                },
                ScopePatternV::Any => {
                    assert(false);
                },
            }
        },
        ScopePatternV::Any => {
            assert(false);
        },
    }
    let m0 = a + 7 + nmp.len() as int;
    match p.when {
        None => {
            assert(b == m0);
            match q.when {
                None => {
                },
                Some(_) => {
                    assert(b >= m0 + 7);
                    assert(false);
                },
            }
        },
        Some(cp) => {
            match q.when {
                None => {
                    assert(b == m0);
                    assert(b >= m0 + 7);
                    assert(false);
                },
                Some(cq) => {
                    assert(m0 + 6 + cp.attr.len() == b && m0 + 6 + cq.attr.len() == b);
                    assert(cp.attr == s.subrange(m0 + 6, b) && cq.attr == s.subrange(m0 + 6, b));
                    assert(cp =~= cq);
                },
            }
        },
    }
    assert(p =~= q);
}

/// Whether the segment `[a, b)` of `s` is the rendering of some rule.
pub open spec fn renderable_segment(s: Seq<char>, a: int, b: int) -> bool {
    exists|q: PolicyV| textable(q) && s.subrange(a, b) == #[trigger] policy_line(q)
}

/// Parses one rule line (`[start, end)`, newline excluded).  The parse
/// succeeds exactly on segments that are the rendering of a rule, and the
/// parsed rule renders back to exactly that segment.
fn parse_line(s: &str, start: usize, end: usize) -> (r: Option<Policy>)
    requires
        start <= end <= s@.len(),
    ensures
        match r {
            Some(p) => textable(p@) && s@.subrange(start as int, end as int) == policy_line(p@),
            None => !renderable_segment(s@, start as int, end as int),
        },
{
    proof {
        reveal_strlit("permit");
        reveal_strlit("forbid");
        reveal_strlit(" ");
        reveal_strlit(" when ");
        reveal_strlit("Action");
    }
    let ghost a = start as int;
    let ghost b = end as int;
    let effect: Effect;
    if end - start >= 6 && match_lit(s, start, "permit") {
        effect = Effect::Permit;
    } else if end - start >= 6 && match_lit(s, start, "forbid") {
        effect = Effect::Forbid;
    } else {
        proof {
            assert forall|q: PolicyV| !(textable(q) && s@.subrange(a, b) == policy_line(q)) by {
                if textable(q) && s@.subrange(a, b) == policy_line(q) {
                    reveal_strlit("permit");
                    reveal_strlit("forbid");
                    lemma_line_shape(s@, a, b, q);
                }
            }
        }
        return None;
    }
    let k = start + 6;
    if k >= end {
        proof {
            assert forall|q: PolicyV| !(textable(q) && s@.subrange(a, b) == policy_line(q)) by {
                if textable(q) && s@.subrange(a, b) == policy_line(q) {
                    lemma_line_shape(s@, a, b, q);
                }
            }
        }
        return None;
    }
    if s.get_char(k) != ' ' {
        proof {
            assert forall|q: PolicyV| !(textable(q) && s@.subrange(a, b) == policy_line(q)) by {
                if textable(q) && s@.subrange(a, b) == policy_line(q) {
                    lemma_line_shape(s@, a, b, q);
                }
            }
        }
        return None;
    }
    let name_start = k + 1;
    if name_start >= end {
        proof {
            assert forall|q: PolicyV| !(textable(q) && s@.subrange(a, b) == policy_line(q)) by {
                if textable(q) && s@.subrange(a, b) == policy_line(q) {
                    lemma_line_shape(s@, a, b, q);
                }
            }
        }
        return None;
    }
    if !crate::text::check_ident_start(s.get_char(name_start)) {
        proof {
            assert forall|q: PolicyV| !(textable(q) && s@.subrange(a, b) == policy_line(q)) by {
                if textable(q) && s@.subrange(a, b) == policy_line(q) {
                    lemma_line_shape(s@, a, b, q);
                    let nm = action_name_of(q);
                    lemma_ident_pointwise(nm);
                    assert(s@.subrange(a + 7, a + 7 + nm.len() as int)[0] == s@[a + 7]);
                    assert(is_ident_start(s@[a + 7]));
                }
            }
        }
        return None;
    }
    let name_end = scan_ident(s, name_start, end);
    if name_end == name_start {
        proof {
            assert forall|q: PolicyV| !(textable(q) && s@.subrange(a, b) == policy_line(q)) by {
                if textable(q) && s@.subrange(a, b) == policy_line(q) {
                    lemma_scan_pins_name(s@, a, b, q, name_end as int);
                    lemma_line_shape(s@, a, b, q);
                }
            }
        }
        return None;
    }
    let name = s.substring_char(name_start, name_end).to_owned();
    proof {
        lemma_ident_chars_all(name@, 0);
        assert(is_ident(name@));
    }
    let action_uid = EntityUid { etype: String::from_str("Action"), eid: name };
    let when: Option<Condition>;
    if name_end == end {
        when = None;
    } else {
        if end - name_end < 6 || !match_lit(s, name_end, " when ") {
            proof {
                assert forall|q: PolicyV| !(textable(q) && s@.subrange(a, b) == policy_line(q)) by {
                    if textable(q) && s@.subrange(a, b) == policy_line(q) {
                        lemma_scan_pins_name(s@, a, b, q, name_end as int);
                        lemma_line_shape(s@, a, b, q);
                        match q.when {
                            None => {
                                assert(name_end as int == b);
                                assert(false);
                            },
                            Some(c) => {
                                assert(b - name_end >= 6);
                            },
                        }
                    }
                }
            }
            return None;
        }
        let attr_start = name_end + 6;
        if attr_start >= end {
            proof {
                assert forall|q: PolicyV| !(textable(q) && s@.subrange(a, b) == policy_line(q)) by {
                    if textable(q) && s@.subrange(a, b) == policy_line(q) {
                        lemma_scan_pins_name(s@, a, b, q, name_end as int);
                        lemma_line_shape(s@, a, b, q);
                        match q.when {
                            None => {
                                assert(false);
                            },
                            Some(c) => {
                                assert(b == name_end + 6 + c.attr.len());
                            },
                        }
                    }
                }
            }
            return None;
        }
        if !crate::text::check_ident_start(s.get_char(attr_start)) {
            proof {
                assert forall|q: PolicyV| !(textable(q) && s@.subrange(a, b) == policy_line(q)) by {
                    if textable(q) && s@.subrange(a, b) == policy_line(q) {
                        lemma_scan_pins_name(s@, a, b, q, name_end as int);
                        lemma_line_shape(s@, a, b, q);
                        match q.when {
                            None => {
                                assert(false);
                            },
                            Some(c) => {
                                lemma_ident_pointwise(c.attr);
                                assert(s@.subrange(attr_start as int, b)[0] == s@[attr_start as int]);
                                assert(is_ident_start(s@[attr_start as int]));
                            },
                        }
                    }
                }
            }
            return None;
        }
        let attr_end = scan_ident(s, attr_start, end);
        if attr_end != end {
            proof {
                assert forall|q: PolicyV| !(textable(q) && s@.subrange(a, b) == policy_line(q)) by {
                    if textable(q) && s@.subrange(a, b) == policy_line(q) {
                        lemma_scan_pins_name(s@, a, b, q, name_end as int);
                        lemma_line_shape(s@, a, b, q);
                        match q.when {
                            None => {
                                assert(false);
                            },
                            Some(c) => {
                                lemma_ident_pointwise(c.attr);
                                assert forall|t: int|
                                    0 <= t < c.attr.len() implies is_ident_char(
                                    #[trigger] s@[attr_start + t],
                                ) by {
                                    assert(s@.subrange(attr_start as int, b)[t] == s@[attr_start
                                        + t]);
                                    assert(is_ident_char(c.attr[t]));
                                }
                                assert(attr_end < end ==> !is_ident_char(s@[attr_end as int]));
                                assert((attr_end as int) < b);
                                assert(s@[attr_start + (attr_end - attr_start) as int] == s@[(
                                attr_end as int)]);
                                assert(is_ident_char(s@[attr_end as int]));
                                assert(false);
                            },
                        }
                    }
                }
            }
            return None;
        }
        let attr = s.substring_char(attr_start, attr_end).to_owned();
        proof {
            lemma_ident_chars_all(attr@, 0);
            assert(is_ident(attr@));
        }
        when = Some(Condition { attr });
    }
    let p = Policy {
        effect,
        principal: ScopePattern::Any,
        action: ScopePattern::Is(action_uid),
        resource: ScopePattern::Any,
        when,
    };
    proof {
        assert(s@.subrange(start as int, start as int + 6) == effect_text(p@.effect));
        assert(s@.subrange(start as int, end as int) =~= policy_line(p@));
    }
    Some(p)
}

/// Whether the text from `pos` on is the rendering of the rules from
/// some position `c` on.
pub open spec fn suffix_renders(s: Seq<char>, pos: int, ps: Seq<PolicyV>) -> bool {
    exists|c: int|
        0 <= c <= ps.len() && s.subrange(pos, s.len() as int) == #[trigger] policies_text(ps, c)
}

/// One step of rendering: a nonempty suffix that renders the rules from
/// `c` on starts with the line of rule `c`, then a newline, then the
/// rendering of the rules from `c + 1` on.
proof fn lemma_render_step(s: Seq<char>, pos: int, ps: Seq<PolicyV>, c: int)
    requires
        0 <= pos < s.len(),
        all_textable(ps),
        0 <= c <= ps.len(),
        s.subrange(pos, s.len() as int) == policies_text(ps, c),
    ensures
        c < ps.len(),
        textable(ps[c]),
        pos + policy_line(ps[c]).len() + 1 <= s.len(),
        s.subrange(pos, pos + policy_line(ps[c]).len() as int) == policy_line(ps[c]),
        s[pos + policy_line(ps[c]).len()] == '\n',
        forall|j: int| pos <= j < pos + policy_line(ps[c]).len() ==> #[trigger] s[j] != '\n',
        s.subrange(pos + policy_line(ps[c]).len() + 1, s.len() as int) == policies_text(ps, c + 1),
{
    reveal_strlit("\n");
    let n = s.len() as int;
    if c == ps.len() {
        assert(s.subrange(pos, n).len() == 0);
        assert(false);
    }
    let line = policy_line(ps[c]);
    let ll = line.len() as int;
    let rest = policies_text(ps, c + 1);
    assert(s.subrange(pos, n) == line + "\n"@ + rest);
    assert(n - pos == ll + 1 + rest.len());
    assert forall|t: int| 0 <= t < ll implies s.subrange(pos, pos + ll)[t] == line[t] by {
        assert(s.subrange(pos, n)[t] == s[pos + t]);
        assert((line + "\n"@ + rest)[t] == line[t]);
    }
    assert(s.subrange(pos, pos + ll) =~= line);
    assert(s.subrange(pos, n)[ll] == s[pos + ll]);
    assert((line + "\n"@ + rest)[ll] == '\n');
    lemma_line_newline_free(s, pos, pos + ll, ps[c]);
    assert forall|t: int| 0 <= t < rest.len() implies s.subrange(pos + ll + 1, n)[t] == rest[t] by {
        assert(s.subrange(pos, n)[ll + 1 + t] == s[pos + ll + 1 + t]);
        assert((line + "\n"@ + rest)[ll + 1 + t] == rest[t]);
    }
    assert(s.subrange(pos + ll + 1, n) =~= rest);
}

/// Suffixes of two rule sets with the same rendering are the same rules.
proof fn lemma_policies_text_injective_from(
    ps1: Seq<PolicyV>,
    ps2: Seq<PolicyV>,
    i: int,
    j: int,
)
    requires
        all_textable(ps1),
        all_textable(ps2),
        0 <= i <= ps1.len(),
        0 <= j <= ps2.len(),
        policies_text(ps1, i) == policies_text(ps2, j),
    ensures
        ps1.subrange(i, ps1.len() as int) == ps2.subrange(j, ps2.len() as int),
    decreases ps1.len() - i,
{
    reveal_strlit("\n");
    let t = policies_text(ps1, i);
    let n1 = ps1.len() as int;
    let n2 = ps2.len() as int;
    if i == n1 && j == n2 {
        assert(ps1.subrange(i, n1) =~= ps2.subrange(j, n2));
    } else if i == n1 {
        assert(t.len() == 0);
        assert(t == policy_line(ps2[j]) + "\n"@ + policies_text(ps2, j + 1));
        assert(t.len() >= 1);
        assert(false);
    } else if j == n2 {
        assert(t.len() == 0);
        assert(t == policy_line(ps1[i]) + "\n"@ + policies_text(ps1, i + 1));
        assert(t.len() >= 1);
        assert(false);
    } else {
        assert(t == policy_line(ps1[i]) + "\n"@ + policies_text(ps1, i + 1));
        assert(t.len() >= 1);
        assert(t.subrange(0, t.len() as int) =~= t);
        lemma_render_step(t, 0, ps1, i);
        lemma_render_step(t, 0, ps2, j);
        let ll1 = policy_line(ps1[i]).len() as int;
        let ll2 = policy_line(ps2[j]).len() as int;
        if ll1 < ll2 {
            assert(t[ll1] == '\n');
            assert(t[ll1] != '\n');
            assert(false);
        }
        if ll2 < ll1 {
            assert(t[ll2] == '\n');
            assert(t[ll2] != '\n');
            assert(false);
        }
        lemma_policy_line_injective(t, 0, ll1, ps1[i], ps2[j]);
        assert(t.subrange(ll1 + 1, t.len() as int) == policies_text(ps1, i + 1));
        assert(t.subrange(ll2 + 1, t.len() as int) == policies_text(ps2, j + 1));
        lemma_policies_text_injective_from(ps1, ps2, i + 1, j + 1);
        assert(ps1.subrange(i + 1, n1).len() == ps2.subrange(j + 1, n2).len());
        assert(n1 - (i + 1) == n2 - (j + 1));
        assert forall|k: int| 0 <= k < n1 - i implies ps1.subrange(i, n1)[k] == ps2.subrange(
            j,
            n2,
        )[k] by {
            if k == 0 {
                assert(ps1.subrange(i, n1)[0] == ps1[i]);
                assert(ps2.subrange(j, n2)[0] == ps2[j]);
            } else {
                assert(ps1.subrange(i + 1, n1)[k - 1] == ps1[i + k]);
                assert(ps2.subrange(j + 1, n2)[k - 1] == ps2[j + k]);
            }
        }
        assert(ps1.subrange(i, n1) =~= ps2.subrange(j, n2));
    }
}

/// Rules are recoverable from their source text: two rule sets in the
/// source format with the same rendering are the same rule set, so the
/// loader's round trip loses nothing.
pub proof fn lemma_policies_text_injective(ps1: Seq<PolicyV>, ps2: Seq<PolicyV>)
    requires
        all_textable(ps1),
        all_textable(ps2),
        policies_text(ps1, 0) == policies_text(ps2, 0),
    ensures
        ps1 == ps2,
{
    lemma_policies_text_injective_from(ps1, ps2, 0, 0);
    assert(ps1.subrange(0, ps1.len() as int) =~= ps1);
    assert(ps2.subrange(0, ps2.len() as int) =~= ps2);
}

/// Parses policy source text into the rule set it renders from.  The
/// parse succeeds exactly when the text is the rendering of a rule set in
/// the source format — then it returns rules that render back to the
/// text — and any other text is a configuration error.
pub fn load_policies(src: &str) -> (r: Result<PolicySet, ConfigError>)
    ensures
        match r {
            Ok(ps) => all_textable(ps@) && src@ == policies_text(ps@, 0),
            Err(e) => e == ConfigError::MalformedPolicy && (forall|ps: Seq<PolicyV>|
                all_textable(ps) ==> src@ != #[trigger] policies_text(ps, 0)),
        },
{
    proof {
        reveal_strlit("\n");
    }
    let len = src.unicode_len();
    let mut policies: Vec<Policy> = Vec::new();
    proof {
        assert(policies@.map_values(|p: Policy| p@) =~= Seq::<PolicyV>::empty());
        assert(src@.subrange(0, 0) =~= policies_text(policies@.map_values(|p: Policy| p@), 0));
    }
    let mut pos: usize = 0;
    proof {
        assert forall|ps: Seq<PolicyV>|
            all_textable(ps) && src@ == #[trigger] policies_text(ps, 0) implies suffix_renders(
            src@,
            0,
            ps,
        ) by {
            assert(src@.subrange(0, src@.len() as int) =~= src@);
            assert(src@.subrange(0, src@.len() as int) == policies_text(ps, 0));
        }
    }
    while pos < len
        invariant
            0 <= pos <= len,
            len == src@.len(),
            all_textable(policies@.map_values(|p: Policy| p@)),
            src@.subrange(0, pos as int) == policies_text(policies@.map_values(|p: Policy| p@), 0),
            forall|ps: Seq<PolicyV>|
                all_textable(ps) && src@ == #[trigger] policies_text(ps, 0) ==> suffix_renders(
                    src@,
                    pos as int,
                    ps,
                ),
        decreases len - pos,
    {
        let ghost psv = policies@.map_values(|p: Policy| p@);
        let ghost a = pos as int;
        let nl = find_newline(src, pos);
        if nl == len {
            proof {
                assert forall|ps: Seq<PolicyV>|
                    all_textable(ps) implies src@ != #[trigger] policies_text(ps, 0) by {
                    if src@ == policies_text(ps, 0) {
                        let c = choose|c: int|
                            0 <= c <= ps.len() && src@.subrange(a, len as int)
                                == #[trigger] policies_text(ps, c);
                        lemma_render_step(src@, a, ps, c);
                        assert(src@[a + policy_line(ps[c]).len()] == '\n');
                        assert(false);
                    }
                }
            }
            return Err(ConfigError::MalformedPolicy);
        }
        let p = match parse_line(src, pos, nl) {
            Some(p) => p,
            None => {
                proof {
                    assert forall|ps: Seq<PolicyV>|
                        all_textable(ps) implies src@ != #[trigger] policies_text(ps, 0) by {
                        if src@ == policies_text(ps, 0) {
                            let c = choose|c: int|
                                0 <= c <= ps.len() && src@.subrange(a, len as int)
                                    == #[trigger] policies_text(ps, c);
                            lemma_render_step(src@, a, ps, c);
                            let ll = policy_line(ps[c]).len() as int;
                            assert(src@[a + ll] == '\n');
                            assert(nl as int == a + ll);
                            assert(src@.subrange(a, nl as int) == policy_line(ps[c]));
                            assert(renderable_segment(src@, a, nl as int));
                            assert(false);
                        }
                    }
                }
                return Err(ConfigError::MalformedPolicy);
            },
        };
        policies.push(p);
        pos = nl + 1;
        proof {
            reveal_strlit("\n");
            let psv2 = policies@.map_values(|q: Policy| q@);
            assert(psv2 =~= psv.push(p@));
            lemma_policies_text_push(psv, p@, 0);
            assert(src@.subrange(nl as int, pos as int) =~= "\n"@);
            assert(src@.subrange(0, pos as int) =~= src@.subrange(0, a) + src@.subrange(a, nl as int)
                + src@.subrange(nl as int, pos as int));
            assert(src@.subrange(0, pos as int) =~= policies_text(psv2, 0));
            assert forall|ps: Seq<PolicyV>|
                all_textable(ps) && src@ == #[trigger] policies_text(ps, 0) implies suffix_renders(
                src@,
                pos as int,
                ps,
            ) by {
                let c = choose|c: int|
                    0 <= c <= ps.len() && src@.subrange(a, len as int) == #[trigger] policies_text(
                        ps,
                        c,
                    );
                lemma_render_step(src@, a, ps, c);
                let ll = policy_line(ps[c]).len() as int;
                assert(nl as int == a + ll);
                assert(src@.subrange(pos as int, len as int) == policies_text(ps, c + 1));
            }
        }
    }
    proof {
        assert(src@.subrange(0, len as int) =~= src@);
    }
    Ok(PolicySet { policies })
}

} // verus!
