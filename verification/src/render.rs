//! Rendering of a terminal changeset's resource-change list.
//!
//! [`render_changeset`] filters, orders and formats change records into
//! display lines: records are grouped by sorting on the action string, each
//! resource record becomes one line with a marker for its action and a
//! note when the change requires replacement, and non-resource records get
//! a generic fallback line instead of being dropped.

use vstd::prelude::*;
use vstd::string::StringExecFns;

use crate::lifecycle::StatusClass;
use crate::lifecycle::classify_status;
use crate::lifecycle::spec_status_class;
use crate::text::join_strings;
use crate::text::join_with;
use crate::text::lemma_lex_le_total;
use crate::text::lemma_lex_le_trans;
use crate::text::lex_le;
use crate::text::str_eq;
use crate::text::str_lex_le;

verus! {

/// One entry of a changeset's change list.
#[derive(Debug, Clone, PartialEq)]
pub struct ChangeRecord {
    /// Record kind; the service reports resource changes as `Resource`.
    pub kind: String,
    /// `Add`, `Modify`, `Remove`, or an unknown action.
    pub action: String,
    pub resource_type: String,
    pub logical_id: String,
    pub physical_id: String,
    /// Change scopes, reported in order.
    pub scope: Vec<String>,
    /// Whether the change destroys and recreates the resource.
    pub replacement_required: bool,
}

/// Mathematical image of a [`ChangeRecord`].
pub struct ChangeRecordView {
    pub kind: Seq<char>,
    pub action: Seq<char>,
    pub resource_type: Seq<char>,
    pub logical_id: Seq<char>,
    pub physical_id: Seq<char>,
    pub scope: Seq<Seq<char>>,
    pub replacement_required: bool,
}

impl View for ChangeRecord {
    type V = ChangeRecordView;

    open spec fn view(&self) -> ChangeRecordView {
        ChangeRecordView {
            kind: self.kind@,
            action: self.action@,
            resource_type: self.resource_type@,
            logical_id: self.logical_id@,
            physical_id: self.physical_id@,
            scope: self.scope.deep_view(),
            replacement_required: self.replacement_required,
        }
    }
}

/// The visual marker a line carries, one per known action.
#[derive(Clone, Copy, Debug, PartialEq, Eq, Structural)]
pub enum Marker {
    Add,
    Modify,
    Remove,
    Plain,
}

/// One display line of the change report.
#[derive(Debug, Clone, PartialEq)]
pub struct RenderedLine {
    /// Marker selected by the record's action.
    pub marker: Marker,
    /// Whether the record requires replacing the resource.
    pub replacement: bool,
    /// The composed line text.
    pub text: String,
}

/// The marker selected by an action string.
pub open spec fn spec_marker(action: Seq<char>) -> Marker {
    if action == "Add"@ {
        Marker::Add
    } else if action == "Modify"@ {
        Marker::Modify
    } else if action == "Remove"@ {
        Marker::Remove
    } else {
        Marker::Plain
    }
}

/// The text of a resource-change line: action, resource type, logical and
/// physical ids, the joined scope list, and the replacement note when one
/// is required.
pub open spec fn spec_line_text(c: ChangeRecordView) -> Seq<char> {
    c.action + " "@ + c.resource_type + " "@ + c.logical_id + " "@ + c.physical_id + " "@
        + join_with(c.scope, ", "@) + " "@ + (if c.replacement_required {
        "Requires replacement"@
    } else {
        Seq::<char>::empty()
    })
}

fn line_text(c: &ChangeRecord) -> (t: String)
    ensures
        t@ == spec_line_text(c@),
{
    let mut t = c.action.clone();
    t.append(" ");
    t.append(c.resource_type.as_str());
    t.append(" ");
    t.append(c.logical_id.as_str());
    t.append(" ");
    t.append(c.physical_id.as_str());
    t.append(" ");
    let joined = join_strings(&c.scope, ", ");
    t.append(joined.as_str());
    t.append(" ");
    if c.replacement_required {
        t.append("Requires replacement");
    }
    proof {
        assert(t@ =~= spec_line_text(c@));
    }
    t
}

/// Render one resource-change record as a line.
pub fn render_change(c: &ChangeRecord) -> (line: RenderedLine)
    ensures
        line.marker == spec_marker(c.action@),
        line.replacement == c.replacement_required,
        line.text@ == spec_line_text(c@),
{
    let marker = if str_eq(c.action.as_str(), "Add") {
        Marker::Add
    } else if str_eq(c.action.as_str(), "Modify") {
        Marker::Modify
    } else if str_eq(c.action.as_str(), "Remove") {
        Marker::Remove
    } else {
        Marker::Plain
    };
    RenderedLine { marker, replacement: c.replacement_required, text: line_text(c) }
}

/// The records stand in non-decreasing order of their action strings.
pub open spec fn sorted_by_action(s: Seq<ChangeRecord>) -> bool {
    forall|i: int, j: int| 0 <= i < j < s.len() ==> lex_le(s[i].action@, s[j].action@)
}

/// `r` placed behind every record whose action does not exceed its own:
/// the insertion that keeps equal actions in their original order.
pub open spec fn insert_by_action(r: ChangeRecord, s: Seq<ChangeRecord>) -> Seq<ChangeRecord>
    decreases s.len(),
{
    if s.len() == 0 {
        seq![r]
    } else if lex_le(s[0].action@, r.action@) {
        seq![s[0]] + insert_by_action(r, s.drop_first())
    } else {
        seq![r] + s
    }
}

/// The stable sort of the records by action string.
pub open spec fn stable_sort_by_action(s: Seq<ChangeRecord>) -> Seq<ChangeRecord>
    decreases s.len(),
{
    if s.len() == 0 {
        Seq::empty()
    } else {
        insert_by_action(s.last(), stable_sort_by_action(s.drop_last()))
    }
}

proof fn lemma_insert_by_action_len(r: ChangeRecord, s: Seq<ChangeRecord>)
    ensures
        insert_by_action(r, s).len() == s.len() + 1,
    decreases s.len(),
{
    if s.len() != 0 && lex_le(s[0].action@, r.action@) {
        lemma_insert_by_action_len(r, s.drop_first());
    }
}

proof fn lemma_stable_sort_by_action_len(s: Seq<ChangeRecord>)
    ensures
        stable_sort_by_action(s).len() == s.len(),
    decreases s.len(),
{
    if s.len() != 0 {
        lemma_stable_sort_by_action_len(s.drop_last());
        lemma_insert_by_action_len(s.last(), stable_sort_by_action(s.drop_last()));
    }
}

/// Inserting at the first position whose record's action exceeds the new
/// record's action is exactly the stable insertion.
proof fn lemma_insert_by_action_at(r: ChangeRecord, s: Seq<ChangeRecord>, j: int)
    requires
        0 <= j <= s.len(),
        forall|k: int| 0 <= k < j ==> lex_le(s[k].action@, r.action@),
        j < s.len() ==> !lex_le(s[j].action@, r.action@),
    ensures
        insert_by_action(r, s) == s.insert(j, r),
    decreases j,
{
    if j == 0 {
        if s.len() == 0 {
            assert(insert_by_action(r, s) =~= s.insert(0, r));
        } else {
            assert(seq![r] + s =~= s.insert(0, r));
        }
    } else {
        lemma_insert_by_action_at(r, s.drop_first(), j - 1);
        assert(seq![s[0]] + s.drop_first().insert(j - 1, r) =~= s.insert(j, r));
    }
}

/// Sort the change list by action string, preserving the collection of
/// records.
pub fn sort_changes_by_action(v: &mut Vec<ChangeRecord>)
    ensures
        final(v)@ == stable_sort_by_action(old(v)@),
        sorted_by_action(final(v)@),
        final(v)@.to_multiset() == old(v)@.to_multiset(),
        final(v)@.len() == old(v)@.len(),
{
    if v.len() <= 1 {
        proof {
            if v@.len() == 1 {
                assert(stable_sort_by_action(Seq::<ChangeRecord>::empty())
                    == Seq::<ChangeRecord>::empty());
                assert(v@.drop_last() =~= Seq::<ChangeRecord>::empty());
                assert(insert_by_action(v@.last(), Seq::<ChangeRecord>::empty()) =~= seq![
                    v@.last(),
                ]);
                assert(stable_sort_by_action(v@) == insert_by_action(
                    v@.last(),
                    stable_sort_by_action(v@.drop_last()),
                ));
                assert(stable_sort_by_action(v@) =~= v@);
            }
        }
        return ;
    }
    proof {
        let w = v@;
        assert(stable_sort_by_action(Seq::<ChangeRecord>::empty()) == Seq::<ChangeRecord>::empty());
        assert(w.take(1).drop_last() =~= Seq::<ChangeRecord>::empty());
        assert(w.take(1).last() == w[0]);
        assert(insert_by_action(w[0], Seq::<ChangeRecord>::empty()) =~= seq![w[0]]);
        assert(stable_sort_by_action(w.take(1)) == insert_by_action(
            w.take(1).last(),
            stable_sort_by_action(w.take(1).drop_last()),
        ));
        assert(stable_sort_by_action(w.take(1)) =~= seq![w[0]]);
        assert(w =~= stable_sort_by_action(w.take(1)) + w.skip(1));
    }
    let mut idx: usize = 1;
    while idx < v.len()
        invariant
            1 <= idx <= v@.len(),
            v@.len() == old(v)@.len(),
            v@ == stable_sort_by_action(old(v)@.take(idx as int)) + old(v)@.skip(idx as int),
            forall|p: int, q: int|
                0 <= p < q < idx ==> lex_le(v@[p].action@, v@[q].action@),
            v@.to_multiset() == old(v)@.to_multiset(),
        decreases v@.len() - idx,
    {
        let ghost v0 = v@;
        let x = v.remove(idx);
        let ghost v1 = v@;
        let mut j: usize = 0;
        while j < idx && str_lex_le(v[j].action.as_str(), x.action.as_str())
            invariant
                j <= idx,
                idx < v0.len(),
                v@ == v1,
                v1 == v0.remove(idx as int),
                forall|k: int| 0 <= k < j ==> lex_le(v@[k].action@, x.action@),
            decreases idx - j,
        {
            j += 1;
        }
        proof {
            assert(forall|k: int| 0 <= k < idx ==> v1[k] == v0[k]);
        }
        let ghost stopped_short = j < idx;
        proof {
            if stopped_short {
                assert(!lex_le(v1[j as int].action@, x.action@));
                lemma_lex_le_total(v1[j as int].action@, x.action@);
            }
        }
        v.insert(j, x);
        proof {
            broadcast use vstd::seq_lib::group_to_multiset_ensures;
            broadcast use vstd::multiset::group_multiset_axioms;

            let v2 = v@;
            assert(v2 == v1.insert(j as int, x));
            // the collection of records is unchanged
            assert(v1.insert(j as int, x).to_multiset() == v1.to_multiset().insert(x));
            assert(v0.remove(idx as int).to_multiset() == v0.to_multiset().remove(
                v0[idx as int],
            ));
            assert(v0.contains(v0[idx as int]));
            assert(v0.to_multiset().count(v0[idx as int]) > 0);
            assert forall|y: ChangeRecord| v2.to_multiset().count(y) == v0.to_multiset().count(
                y,
            ) by {
                assert(v2.to_multiset().count(y) == v1.to_multiset().insert(x).count(y));
                assert(v1.to_multiset() == v0.to_multiset().remove(x));
            }
            assert(v2.to_multiset() =~= v0.to_multiset());
            // the sorted prefix grew by one
            assert forall|p: int, q: int| 0 <= p < q < idx + 1 implies lex_le(
                v2[p].action@,
                v2[q].action@,
            ) by {
                if q < j {
                    assert(v2[p] == v1[p] && v2[q] == v1[q]);
                } else if q == j {
                    assert(v2[p] == v1[p] && v2[q] == x);
                } else if p < j {
                    assert(v2[p] == v1[p] && v2[q] == v1[q - 1]);
                    if p == q - 1 {
                        assert(false);
                    }
                } else if p == j {
                    assert(v2[p] == x && v2[q] == v1[q - 1]);
                    assert(lex_le(x.action@, v1[j as int].action@));
                    if q - 1 > j {
                        lemma_lex_le_trans(x.action@, v1[j as int].action@, v1[q - 1].action@);
                    }
                } else {
                    assert(v2[p] == v1[p - 1] && v2[q] == v1[q - 1]);
                }
            }
            // the new prefix is exactly the stable insertion of x
            let orig = old(v)@;
            let sorted_prefix = stable_sort_by_action(orig.take(idx as int));
            lemma_stable_sort_by_action_len(orig.take(idx as int));
            assert(sorted_prefix.len() == idx);
            assert(x == v0[idx as int]);
            assert(x == orig[idx as int]);
            assert(v1 =~= sorted_prefix + orig.skip(idx + 1));
            assert(forall|k: int| 0 <= k < j ==> v1[k] == sorted_prefix[k]);
            lemma_insert_by_action_at(x, sorted_prefix, j as int);
            assert(v2 =~= sorted_prefix.insert(j as int, x) + orig.skip(idx + 1));
            assert(orig.take(idx + 1).drop_last() =~= orig.take(idx as int));
            assert(orig.take(idx + 1).last() == x);
            assert(stable_sort_by_action(orig.take(idx + 1)) == insert_by_action(
                x,
                sorted_prefix,
            ));
            assert(v2 =~= stable_sort_by_action(orig.take(idx + 1)) + orig.skip(idx + 1));
        }
        idx += 1;
    }
    proof {
        let orig = old(v)@;
        assert(orig.take(orig.len() as int) =~= orig);
        assert(orig.skip(orig.len() as int) =~= Seq::<ChangeRecord>::empty());
        assert(stable_sort_by_action(orig) + Seq::<ChangeRecord>::empty() =~= stable_sort_by_action(
            orig,
        ));
    }
}

/// What one record's line must look like: resource records carry the
/// action's marker and the composed text, any other kind falls back to a
/// generic line that still shows every field.
pub open spec fn line_matches(c: ChangeRecord, l: RenderedLine) -> bool {
    if c.kind@ == "Resource"@ {
        l.marker == spec_marker(c.action@) && l.replacement == c.replacement_required && l.text@
            == spec_line_text(c@)
    } else {
        l.marker == Marker::Plain && l.replacement == false && l.text@ == "other "@
            + spec_line_text(c@)
    }
}

/// What rendering a described changeset produces: for a succeeded terminal
/// status, one line per record of the stable sort of the change list —
/// a grouping by action string that keeps equal actions in their original
/// order; for any other status, a single line that surfaces the status
/// string.
pub open spec fn render_post(
    status: Seq<char>,
    changes: Seq<ChangeRecord>,
    lines: Seq<RenderedLine>,
) -> bool {
    if spec_status_class(status) == StatusClass::Succeeded {
        let sorted = stable_sort_by_action(changes);
        &&& sorted_by_action(sorted)
        &&& sorted.to_multiset() == changes.to_multiset()
        &&& lines.len() == sorted.len()
        &&& forall|i: int| 0 <= i < sorted.len() ==> line_matches(sorted[i], lines[i])
    } else {
        lines.len() == 1 && lines[0].marker == Marker::Plain && lines[0].replacement == false
            && lines[0].text@ == "change set status is "@ + status
    }
}

/// Render the change report of a changeset that reached the given status.
pub fn render_changeset(status: &str, changes: Vec<ChangeRecord>) -> (lines: Vec<RenderedLine>)
    ensures
        render_post(status@, changes@, lines@),
{
    let c = classify_status(status);
    if c == StatusClass::Succeeded {
        let mut v = changes;
        sort_changes_by_action(&mut v);
        let mut lines: Vec<RenderedLine> = Vec::new();
        let mut i: usize = 0;
        while i < v.len()
            invariant
                i <= v@.len(),
                lines@.len() == i,
                forall|k: int| 0 <= k < i ==> line_matches(v@[k], lines@[k]),
                v@ == stable_sort_by_action(changes@),
                sorted_by_action(v@),
                v@.to_multiset() == changes@.to_multiset(),
            decreases v@.len() - i,
        {
            let rec = &v[i];
            if str_eq(rec.kind.as_str(), "Resource") {
                lines.push(render_change(rec));
            } else {
                let mut t = String::from_str("other ");
                let rest = line_text(rec);
                t.append(rest.as_str());
                lines.push(RenderedLine { marker: Marker::Plain, replacement: false, text: t });
            }
            i += 1;
        }
        lines
    } else {
        let mut t = String::from_str("change set status is ");
        t.append(status);
        let mut lines: Vec<RenderedLine> = Vec::new();
        lines.push(RenderedLine { marker: Marker::Plain, replacement: false, text: t });
        lines
    }
}

} // verus!
