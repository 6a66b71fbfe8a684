//! What a reader of a report learns from it.
use vstd::prelude::*;
use crate::report::ReportView;
use crate::text;
use super::findings;
use super::findings::{FindingView, Issue, ProfileReport, Tier};
use super::render;

verus! {

// Lists.

proof fn kept_at_tier(list: Seq<FindingView>, tier: Tier, n: nat)
    requires
        n <= list.len(),
    ensures
        render::at_tier(list, tier, n) == list.take(n as int).filter(|f: FindingView| f.tier == tier),
    decreases n,
{
    reveal(Seq::filter);
    if n > 0 {
        kept_at_tier(list, tier, (n - 1) as nat);
        assert(list.take(n as int).drop_last() =~= list.take(n - 1));
        assert(list.take(n as int).last() == list[n - 1]);
    }
}

proof fn lines_of_errors(issues: Seq<Issue>, n: nat)
    requires
        n <= issues.len(),
    ensures
        render::error_lines(issues, n) == issues.take(n as int).filter(
            |issue: Issue| issue.level is Error,
        ).map_values(|issue: Issue| issue.line@),
    decreases n,
{
    reveal(Seq::filter);
    let kept = |issue: Issue| issue.level is Error;
    let line = |issue: Issue| issue.line@;
    if n > 0 {
        lines_of_errors(issues, (n - 1) as nat);
        let front = issues.take(n - 1).filter(kept);
        assert(issues.take(n as int).drop_last() =~= issues.take(n - 1));
        assert(issues.take(n as int).last() == issues[n - 1]);
        assert(front.push(issues[n - 1]).map_values(line) =~= front.map_values(line).push(
            issues[n - 1].line@,
        ));
    } else {
        assert(issues.take(0).filter(kept).map_values(line) =~= Seq::empty());
    }
}

/// The findings at a tier.
pub open spec fn findings_at(list: Seq<FindingView>, tier: Tier) -> Seq<FindingView> {
    list.filter(|f: FindingView| f.tier == tier)
}

/// The lines of the errors among some issues.
pub open spec fn errors_told(issues: Seq<Issue>) -> Seq<Seq<char>> {
    issues.filter(|issue: Issue| issue.level is Error).map_values(|issue: Issue| issue.line@)
}

/// How many lines a section of a number of things takes: a heading, a line for each, and an empty one.
pub open spec fn section_size(n: nat) -> nat {
    if n == 0 {
        0
    } else {
        n + 2
    }
}

proof fn section_lines(heading: Seq<char>, list: Seq<FindingView>)
    ensures
        ({
            let section = render::finding_section(heading, list);
            &&& section.len() == section_size(list.len())
            &&& list.len() > 0 ==> section[0] == heading + " ("@ + text::decimal(list.len()) + ")"@
            &&& forall|i: int|
                0 <= i < list.len() ==> section[1 + i] == "- `"@ + (#[trigger] list[i]).code + "` "@
                    + list[i].detail
        }),
{
}

proof fn error_section_lines(lines: Seq<Seq<char>>)
    ensures
        ({
            let section = render::error_section(lines);
            &&& section.len() == section_size(lines.len())
            &&& lines.len() > 0 ==> section[0] == "## Validator errors ("@ + text::decimal(lines.len())
                + ")"@
            &&& forall|i: int| 0 <= i < lines.len() ==> section[1 + i] == "- "@ + #[trigger] lines[i]
        }),
{
}

proof fn five_parts<A>(a: Seq<A>, b: Seq<A>, c: Seq<A>, d: Seq<A>, e: Seq<A>)
    ensures
        ({
            let whole = a + b + c + d + e;
            &&& whole.len() == a.len() + b.len() + c.len() + d.len() + e.len()
            &&& forall|i: int| 0 <= i < a.len() ==> whole[i] == #[trigger] a[i]
            &&& forall|i: int| 0 <= i < b.len() ==> whole[a.len() + i] == #[trigger] b[i]
            &&& forall|i: int| 0 <= i < c.len() ==> whole[a.len() + b.len() + i] == #[trigger] c[i]
            &&& forall|i: int|
                0 <= i < d.len() ==> whole[a.len() + b.len() + c.len() + i] == #[trigger] d[i]
            &&& forall|i: int|
                0 <= i < e.len() ==> whole[a.len() + b.len() + c.len() + d.len() + i]
                    == #[trigger] e[i]
        }),
{
}

/// In markdown a report starts with its classification, tells each finding that keeps the document out
/// of the profile, then each that asks for a transform, then each error of the validator, in their
/// order and under headings that count them, and ends with the losses.
pub proof fn markdown_tells_everything(r: ProfileReport, loss: Seq<char>)
    ensures
        ({
            let lines = render::markdown_lines(r, loss);
            let views = findings::finding_views(r.findings@);
            let out = findings_at(views, Tier::OutOfProfile);
            let bake = findings_at(views, Tier::WithTransform);
            let errors = errors_told(r.issues@);
            let second = 4 + section_size(out.len());
            let third = second + section_size(bake.len());
            let last = third + section_size(errors.len());
            &&& lines.len() == last + 3
            &&& lines[0] == "# HCDF-URDF profile: "@ + r.classification.label_text()
            &&& lines[2] == r.classification.meaning_text()
            &&& out.len() > 0 ==> lines[4] == "## Out-of-profile drivers"@ + " ("@ + text::decimal(
                out.len(),
            ) + ")"@
            &&& forall|i: int|
                0 <= i < out.len() ==> lines[5 + i] == "- `"@ + (#[trigger] out[i]).code + "` "@
                    + out[i].detail
            &&& bake.len() > 0 ==> lines[second as int] == "## Transform / bake needed"@ + " ("@
                + text::decimal(bake.len()) + ")"@
            &&& forall|i: int|
                0 <= i < bake.len() ==> lines[second + 1 + i] == "- `"@ + (#[trigger] bake[i]).code
                    + "` "@ + bake[i].detail
            &&& errors.len() > 0 ==> lines[third as int] == "## Validator errors ("@ + text::decimal(
                errors.len(),
            ) + ")"@
            &&& forall|i: int|
                0 <= i < errors.len() ==> lines[third + 1 + i] == "- "@ + #[trigger] errors[i]
            &&& lines[last as int] == "## Field-level loss manifest"@
            &&& r.loss.entries@.len() == 0 ==> lines[(last + 2) as int] == "_No field-level losses._"@
            &&& r.loss.entries@.len() > 0 ==> lines[(last + 2) as int] == render::after_two_lines(loss)
        }),
{
    let views = findings::finding_views(r.findings@);
    kept_at_tier(views, Tier::OutOfProfile, views.len());
    kept_at_tier(views, Tier::WithTransform, views.len());
    lines_of_errors(r.issues@, r.issues@.len());
    assert(views.take(views.len() as int) =~= views);
    assert(r.issues@.take(r.issues@.len() as int) =~= r.issues@);
    let out = findings_at(views, Tier::OutOfProfile);
    let bake = findings_at(views, Tier::WithTransform);
    let errors = errors_told(r.issues@);
    assert(render::at_tier(views, Tier::OutOfProfile, views.len()) == out);
    assert(render::at_tier(views, Tier::WithTransform, views.len()) == bake);
    assert(render::error_lines(r.issues@, r.issues@.len()) == errors);
    let lines = render::markdown_lines(r, loss);
    let a = seq![
        "# HCDF-URDF profile: "@ + r.classification.label_text(),
        Seq::empty(),
        r.classification.meaning_text(),
        Seq::empty(),
    ];
    let b = render::finding_section("## Out-of-profile drivers"@, out);
    let c = render::finding_section("## Transform / bake needed"@, bake);
    let d = render::error_section(errors);
    let e = seq![
        "## Field-level loss manifest"@,
        Seq::empty(),
        if r.loss.entries@.len() == 0 {
            "_No field-level losses._"@
        } else {
            render::after_two_lines(loss)
        },
    ];
    assert(lines == a + b + c + d + e);
    section_lines("## Out-of-profile drivers"@, out);
    section_lines("## Transform / bake needed"@, bake);
    error_section_lines(errors);
    five_parts(a, b, c, d, e);
    assert(lines[a.len() as int] == b[0] || b.len() == 0);
    assert(lines[(a.len() + b.len()) as int] == c[0] || c.len() == 0);
    assert(lines[(a.len() + b.len() + c.len()) as int] == d[0] || d.len() == 0);
    assert(lines[(a.len() + b.len() + c.len() + d.len()) as int] == e[0]);
    assert(lines[(a.len() + b.len() + c.len() + d.len() + 2) as int] == e[2]);
    assert forall|i: int| 0 <= i < out.len() implies lines[5 + i] == "- `"@ + (#[trigger] out[i]).code
        + "` "@ + out[i].detail by {
        assert(lines[a.len() + (1 + i)] == b[1 + i]);
    }
    assert forall|i: int| 0 <= i < bake.len() implies lines[4 + section_size(out.len()) + 1 + i]
        == "- `"@ + (#[trigger] bake[i]).code + "` "@ + bake[i].detail by {
        assert(lines[a.len() + b.len() + (1 + i)] == c[1 + i]);
    }
    assert forall|i: int| 0 <= i < errors.len() implies lines[4 + section_size(out.len())
        + section_size(bake.len()) + 1 + i] == "- "@ + #[trigger] errors[i] by {
        assert(lines[a.len() + b.len() + c.len() + (1 + i)] == d[1 + i]);
    }
}

// The losses.

proof fn a_line_is_left_out(line: Seq<char>, rest: Seq<char>)
    requires
        !line.contains('\n'),
    ensures
        render::after_line(line + seq!['\n'] + rest) == rest,
        (line + seq!['\n'] + rest).contains('\n'),
    decreases line.len(),
{
    let whole = line + seq!['\n'] + rest;
    assert(whole[line.len() as int] == '\n');
    if line.len() == 0 {
        assert(whole.drop_first() =~= rest);
    } else {
        assert(line.contains(line[0]));
        assert forall|c: char| line.drop_first().contains(c) implies line.contains(c) by {
            let i = choose|i: int| 0 <= i < line.drop_first().len() && line.drop_first()[i] == c;
            assert(line[i + 1] == c);
        }
        a_line_is_left_out(line.drop_first(), rest);
        assert(whole.drop_first() =~= line.drop_first() + seq!['\n'] + rest);
    }
}

/// What stands behind the first two lines of a text is what is left of it; behind its only line, where
/// it has one; a text of no whole line is left whole.
pub proof fn two_lines_are_left_out(first: Seq<char>, second: Seq<char>, rest: Seq<char>)
    requires
        !first.contains('\n'),
        !second.contains('\n'),
    ensures
        render::after_two_lines(first + seq!['\n'] + (second + seq!['\n'] + rest)) == rest,
        render::after_two_lines(first + seq!['\n'] + second) == second,
        render::after_two_lines(first) == first,
{
    a_line_is_left_out(second, rest);
    a_line_is_left_out(first, second + seq!['\n'] + rest);
    a_line_is_left_out(first, second);
}

// JSON.

/// The value of an object under a key.
pub open spec fn under(object: ReportView, key: Seq<char>, value: ReportView) -> bool {
    object is Obj && object->Obj_0.contains((key, value))
}

/// As JSON a report says under six keys what its classification is and means, whether the document is
/// in the profile, all findings in their order, each with its tier, code and words, the errors of the
/// validator, and the losses.
pub proof fn json_tells_everything(r: ProfileReport, loss: ReportView)
    ensures
        ({
            let object = render::report_json(r, loss);
            let views = findings::finding_views(r.findings@);
            let errors = errors_told(r.issues@);
            &&& object is Obj
            &&& object->Obj_0.len() == 6
            &&& under(
                object,
                "classification"@,
                ReportView::Str(r.classification.label_text()),
            )
            &&& under(object, "meaning"@, ReportView::Str(r.classification.meaning_text()))
            &&& under(object, "in_profile"@, ReportView::Bool(!(r.classification is OutOfProfile)))
            &&& under(object, "loss_manifest"@, loss)
            &&& exists|list: Seq<ReportView>|
                {
                    &&& #[trigger] under(object, "findings"@, ReportView::Arr(list))
                    &&& list.len() == views.len()
                    &&& forall|i: int|
                        0 <= i < views.len() ==> {
                            &&& under(
                                #[trigger] list[i],
                                "tier"@,
                                ReportView::Str(views[i].tier.label_text()),
                            )
                            &&& under(list[i], "code"@, ReportView::Str(views[i].code))
                            &&& under(list[i], "detail"@, ReportView::Str(views[i].detail))
                            &&& list[i]->Obj_0.len() == 3
                        }
                }
            &&& exists|list: Seq<ReportView>|
                {
                    &&& #[trigger] under(object, "validator_errors"@, ReportView::Arr(list))
                    &&& list.len() == errors.len()
                    &&& forall|i: int|
                        0 <= i < errors.len() ==> #[trigger] list[i] == ReportView::Str(errors[i])
                }
        }),
{
    let object = render::report_json(r, loss);
    let views = findings::finding_views(r.findings@);
    let errors = errors_told(r.issues@);
    lines_of_errors(r.issues@, r.issues@.len());
    assert(r.issues@.take(r.issues@.len() as int) =~= r.issues@);
    assert(render::error_lines(r.issues@, r.issues@.len()) == errors);
    let pairs = object->Obj_0;
    assert(pairs.contains(pairs[0]));
    assert(pairs.contains(pairs[1]));
    assert(pairs.contains(pairs[2]));
    assert(pairs.contains(pairs[3]));
    assert(pairs.contains(pairs[4]));
    assert(pairs.contains(pairs[5]));
    let list = views.map_values(|f: FindingView| render::finding_json(f));
    assert forall|i: int| 0 <= i < views.len() implies {
        &&& under(#[trigger] list[i], "tier"@, ReportView::Str(views[i].tier.label_text()))
        &&& under(list[i], "code"@, ReportView::Str(views[i].code))
        &&& under(list[i], "detail"@, ReportView::Str(views[i].detail))
        &&& list[i]->Obj_0.len() == 3
    } by {
        let each = list[i]->Obj_0;
        assert(list[i] == render::finding_json(views[i]));
        assert(each.contains(each[0]));
        assert(each.contains(each[1]));
        assert(each.contains(each[2]));
    }
    assert(under(object, "findings"@, ReportView::Arr(list)));
    let told = errors.map_values(|line: Seq<char>| ReportView::Str(line));
    assert(under(object, "validator_errors"@, ReportView::Arr(told)));
}

} // verus!
