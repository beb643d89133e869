//! The dispatch engine: an ordered filter chain, then a registry of
//! (pattern, action) rules evaluated against every processed line. Every
//! rule whose pattern matches fires, in registration order, each with its
//! own copy of the line's metadata.

use crate::error::EventError;
use crate::events::{PoeEvent, PoeEventView, PoeLogLineInfo};
use crate::filter::{apply_filters_spec, LineFilter};
use crate::pattern::{opt_text_view, pattern_ok, regex_group, regex_matches, CompiledPattern};
use crate::text::{collect_string, string_chars};
use vstd::prelude::*;

verus! {

/// What a matching rule does with its captured text.
#[derive(Clone, Copy, Debug, PartialEq, Eq, Structural)]
pub enum EventAction {
    /// Emit `PoeEvent::JoinedArea` from the `location` capture group.
    JoinedArea,
    /// Emit `PoeEvent::ConnectingToInstance` from the `ip` capture group.
    ConnectingToInstance,
}

/// The capture group an action reads.
pub open spec fn action_group(a: EventAction) -> Seq<char> {
    match a {
        EventAction::JoinedArea => "location"@,
        EventAction::ConnectingToInstance => "ip"@,
    }
}

/// The event an action builds from the captured text.
pub open spec fn action_event(a: EventAction, text: Seq<char>) -> PoeEventView {
    match a {
        EventAction::JoinedArea => PoeEventView::JoinedArea(text),
        EventAction::ConnectingToInstance => PoeEventView::ConnectingToInstance(text),
    }
}

impl EventAction {
    /// The name of the capture group this action reads.
    pub fn group_name(&self) -> (r: &'static str)
        ensures
            r@ == action_group(*self),
    {
        match self {
            EventAction::JoinedArea => "location",
            EventAction::ConnectingToInstance => "ip",
        }
    }

    /// Package the captured text as this action's event.
    pub fn build_event(&self, text: String) -> (r: PoeEvent)
        ensures
            r@ == action_event(*self, text@),
    {
        match self {
            EventAction::JoinedArea => PoeEvent::JoinedArea(text),
            EventAction::ConnectingToInstance => PoeEvent::ConnectingToInstance(text),
        }
    }
}

/// What one rule emits for a processed line: one event when the pattern
/// matches and its group participated, nothing otherwise. The metadata goes
/// along by value, so every firing rule gets its own copy.
pub open spec fn rule_emissions(
    pat: Seq<char>,
    a: EventAction,
    line: Seq<char>,
    info: PoeLogLineInfo,
) -> Seq<(PoeEventView, PoeLogLineInfo)> {
    if regex_matches(pat, line) {
        match regex_group(pat, line, action_group(a)) {
            Some(text) => seq![(action_event(a, text), info)],
            None => Seq::empty(),
        }
    } else {
        Seq::empty()
    }
}

/// What a whole rule list emits for a processed line, in registration order.
pub open spec fn emissions_spec(
    rules: Seq<(Seq<char>, EventAction)>,
    line: Seq<char>,
    info: PoeLogLineInfo,
) -> Seq<(PoeEventView, PoeLogLineInfo)>
    decreases rules.len(),
{
    if rules.len() == 0 {
        Seq::empty()
    } else {
        rule_emissions(rules[0].0, rules[0].1, line, info) + emissions_spec(
            rules.drop_first(),
            line,
            info,
        )
    }
}

/// Everything the engine emits for one raw line: the filter chain first,
/// from default metadata, then every rule against the filtered line.
pub open spec fn line_emissions(
    fs: Seq<LineFilter>,
    rules: Seq<(Seq<char>, EventAction)>,
    line: Seq<char>,
) -> Seq<(PoeEventView, PoeLogLineInfo)> {
    let st = apply_filters_spec(fs, line, PoeLogLineInfo { time: 0 });
    emissions_spec(rules, st.0, st.1)
}

/// Law: rule lists emit independently — the emissions of `rs1 ++ rs2` are
/// those of `rs1` followed by those of `rs2`.
pub proof fn lemma_emissions_append(
    rs1: Seq<(Seq<char>, EventAction)>,
    rs2: Seq<(Seq<char>, EventAction)>,
    line: Seq<char>,
    info: PoeLogLineInfo,
)
    ensures
        emissions_spec(rs1 + rs2, line, info) == emissions_spec(rs1, line, info) + emissions_spec(
            rs2,
            line,
            info,
        ),
    decreases rs1.len(),
{
    if rs1.len() == 0 {
        assert(rs1 + rs2 =~= rs2);
        assert(emissions_spec(rs1, line, info) + emissions_spec(rs2, line, info) =~= emissions_spec(
            rs2,
            line,
            info,
        ));
    } else {
        assert((rs1 + rs2)[0] == rs1[0]);
        assert((rs1 + rs2).drop_first() =~= rs1.drop_first() + rs2);
        lemma_emissions_append(rs1.drop_first(), rs2, line, info);
        assert(emissions_spec(rs1 + rs2, line, info) =~= emissions_spec(rs1, line, info)
            + emissions_spec(rs2, line, info));
    }
}

/// A rule list of one rule emits what that rule emits.
proof fn lemma_emissions_singleton(
    r: (Seq<char>, EventAction),
    line: Seq<char>,
    info: PoeLogLineInfo,
)
    ensures
        emissions_spec(seq![r], line, info) == rule_emissions(r.0, r.1, line, info),
{
    let one = seq![r];
    assert(one[0] == r);
    assert(one.drop_first() =~= Seq::<(Seq<char>, EventAction)>::empty());
    assert(emissions_spec(Seq::<(Seq<char>, EventAction)>::empty(), line, info) =~= Seq::<
        (PoeEventView, PoeLogLineInfo),
    >::empty());
    assert(emissions_spec(one, line, info) =~= rule_emissions(r.0, r.1, line, info));
}

/// Law: a line matching several rules triggers every matching rule exactly
/// once, in registration order, each firing receiving the same metadata
/// value as its own copy.
pub proof fn lemma_matching_rule_fires(
    rules: Seq<(Seq<char>, EventAction)>,
    line: Seq<char>,
    info: PoeLogLineInfo,
    k: int,
)
    requires
        0 <= k < rules.len(),
        regex_matches(rules[k].0, line),
        regex_group(rules[k].0, line, action_group(rules[k].1)) is Some,
    ensures
        emissions_spec(rules, line, info) == emissions_spec(rules.take(k), line, info) + seq![
            (
                action_event(
                    rules[k].1,
                    regex_group(rules[k].0, line, action_group(rules[k].1))->0,
                ),
                info,
            ),
        ] + emissions_spec(rules.skip(k + 1), line, info),
{
    let one = seq![rules[k]];
    assert(rules =~= rules.take(k) + one + rules.skip(k + 1));
    lemma_emissions_append(rules.take(k) + one, rules.skip(k + 1), line, info);
    lemma_emissions_append(rules.take(k), one, line, info);
    lemma_emissions_singleton(rules[k], line, info);
}

/// One registered rule: a compiled pattern and what to do on a match.
pub struct EventRule {
    pattern: CompiledPattern,
    action: EventAction,
}

/// The dispatch engine's registrations: filters and rules, each applied in
/// registration order.
pub struct EventManager {
    filters: Vec<LineFilter>,
    rules: Vec<EventRule>,
}

impl EventManager {
    /// The registered filter chain, in order.
    pub closed spec fn filters_view(self) -> Seq<LineFilter> {
        self.filters@
    }

    /// The registered rules, in order: each a pattern text and its action.
    pub closed spec fn rules_view(self) -> Seq<(Seq<char>, EventAction)> {
        self.rules@.map_values(|r: EventRule| (r.pattern.pat(), r.action))
    }

    /// An engine with nothing registered yet.
    pub fn new() -> (r: Self)
        ensures
            r.filters_view() == Seq::<LineFilter>::empty(),
            r.rules_view() == Seq::<(Seq<char>, EventAction)>::empty(),
    {
        let r = EventManager { filters: Vec::new(), rules: Vec::new() };
        assert(r.rules_view() =~= Seq::<(Seq<char>, EventAction)>::empty());
        r
    }

    /// Append `f` to the filter chain. Pure bookkeeping; cannot fail.
    pub fn register_filter(&mut self, f: LineFilter)
        ensures
            final(self).filters_view() == old(self).filters_view().push(f),
            final(self).rules_view() == old(self).rules_view(),
    {
        self.filters.push(f);
    }

    /// Compile `pattern` and append the rule. An invalid pattern fails with
    /// `Pattern`, before any line is processed, and leaves every earlier
    /// registration untouched.
    pub fn register_event(&mut self, pattern: &str, action: EventAction) -> (r: Result<
        (),
        EventError,
    >)
        ensures
            r is Ok <==> pattern_ok(pattern@),
            r is Err ==> r->Err_0 is Pattern,
            r is Err ==> final(self).filters_view() == old(self).filters_view(),
            r is Err ==> final(self).rules_view() == old(self).rules_view(),
            r is Ok ==> final(self).filters_view() == old(self).filters_view(),
            r is Ok ==> final(self).rules_view() == old(self).rules_view().push(
                (pattern@, action),
            ),
    {
        let compiled = match CompiledPattern::compile(pattern) {
            Ok(c) => c,
            Err(e) => {
                return Err(EventError::Pattern(e));
            },
        };
        let ghost before = self.rules@;
        self.rules.push(EventRule { pattern: compiled, action });
        assert(final(self).rules_view() =~= old(self).rules_view().push((pattern@, action)));
        Ok(())
    }

    /// Process one line: apply the filter chain to it, from default
    /// metadata, then fire every matching rule in registration order. The
    /// returned emissions are exactly `line_emissions` of the registrations.
    pub fn process_line(&self, line: &str) -> (ems: Vec<(PoeEvent, PoeLogLineInfo)>)
        ensures
            ems@.map_values(|e: (PoeEvent, PoeLogLineInfo)| (e.0@, e.1)) == line_emissions(
                self.filters_view(),
                self.rules_view(),
                line@,
            ),
    {
        let mut chars = string_chars(line);
        let mut info = PoeLogLineInfo::default();
        let n = self.filters.len();
        let mut i: usize = 0;
        assert(self.filters@.take(0) =~= Seq::<LineFilter>::empty());
        while i < n
            invariant
                0 <= i <= n == self.filters@.len(),
                chars@ == apply_filters_spec(
                    self.filters@.take(i as int),
                    line@,
                    PoeLogLineInfo { time: 0 },
                ).0,
                info == apply_filters_spec(
                    self.filters@.take(i as int),
                    line@,
                    PoeLogLineInfo { time: 0 },
                ).1,
            decreases n - i,
        {
            proof {
                let fs = self.filters@;
                assert(fs.take(i + 1 as int) =~= fs.take(i as int) + seq![fs[i as int]]);
                crate::filter::lemma_apply_filters_append(
                    fs.take(i as int),
                    seq![fs[i as int]],
                    line@,
                    PoeLogLineInfo { time: 0 },
                );
                let st = apply_filters_spec(fs.take(i as int), line@, PoeLogLineInfo { time: 0 });
                crate::filter::lemma_apply_filters_singleton(fs[i as int], st.0, st.1);
            }
            chars = self.filters[i].apply(chars, &mut info);
            i = i + 1;
        }
        assert(self.filters@.take(n as int) =~= self.filters@);
        let ghost st = apply_filters_spec(self.filters@, line@, PoeLogLineInfo { time: 0 });
        let filtered = collect_string(&chars);
        let mut ems: Vec<(PoeEvent, PoeLogLineInfo)> = Vec::new();
        let m = self.rules.len();
        let mut j: usize = 0;
        assert(ems@.map_values(|e: (PoeEvent, PoeLogLineInfo)| (e.0@, e.1)) =~= emissions_spec(
            self.rules_view().take(0),
            st.0,
            st.1,
        ));
        while j < m
            invariant
                0 <= j <= m == self.rules@.len(),
                st == apply_filters_spec(self.filters@, line@, PoeLogLineInfo { time: 0 }),
                filtered@ == st.0,
                info == st.1,
                self.rules_view().len() == m,
                ems@.map_values(|e: (PoeEvent, PoeLogLineInfo)| (e.0@, e.1)) == emissions_spec(
                    self.rules_view().take(j as int),
                    st.0,
                    st.1,
                ),
            decreases m - j,
        {
            proof {
                let rv = self.rules_view();
                assert(rv.take(j + 1 as int) =~= rv.take(j as int) + seq![rv[j as int]]);
                lemma_emissions_append(rv.take(j as int), seq![rv[j as int]], st.0, st.1);
                lemma_emissions_singleton(rv[j as int], st.0, st.1);
                assert(rv[j as int] == (self.rules@[j as int].pattern.pat(),
                self.rules@[j as int].action));
            }
            let rule = &self.rules[j];
            let ghost before = ems@;
            match rule.pattern.capture_group(filtered.as_str(), rule.action.group_name()) {
                Some(Some(text)) => {
                    let event = rule.action.build_event(text);
                    ems.push((event, info));
                    assert(ems@.map_values(|e: (PoeEvent, PoeLogLineInfo)| (e.0@, e.1))
                        =~= before.map_values(|e: (PoeEvent, PoeLogLineInfo)| (e.0@, e.1)).push(
                        (event@, info),
                    ));
                },
                Some(None) => {
                },
                None => {
                },
            }
            j = j + 1;
        }
        assert(self.rules_view().take(m as int) =~= self.rules_view());
        ems
    }
}

} // verus!
