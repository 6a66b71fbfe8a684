//! Profile reports as JSON and as markdown.
use vstd::prelude::*;
use crate::profile::findings;
use crate::profile::findings::{Finding, Issue, Level, ProfileReport, Tier};
use crate::report;
use crate::report::{Json, dump};
use crate::sorting;
use crate::sorting::join_texts;
use crate::text;

verus! {

/// Those of the first `n` findings that are at a tier.
pub open spec fn at_tier(list: Seq<findings::FindingView>, tier: Tier, n: nat) -> Seq<
    findings::FindingView,
>
    decreases n,
{
    if n == 0 || n > list.len() {
        Seq::empty()
    } else {
        let before = at_tier(list, tier, (n - 1) as nat);
        if list[n - 1].tier == tier {
            before.push(list[n - 1])
        } else {
            before
        }
    }
}

/// What a list of borrowed findings holds.
pub open spec fn borrowed_views(list: Seq<&Finding>) -> Seq<findings::FindingView> {
    list.map_values(|f: &Finding| f@)
}

/// The lines of those of the first `n` issues that are errors.
pub open spec fn error_lines(issues: Seq<Issue>, n: nat) -> Seq<Seq<char>>
    decreases n,
{
    if n == 0 || n > issues.len() {
        Seq::empty()
    } else {
        let before = error_lines(issues, (n - 1) as nat);
        if issues[n - 1].level == Level::Error {
            before.push(issues[n - 1].line@)
        } else {
            before
        }
    }
}

fn collect_error_lines(issues: &Vec<Issue>) -> (r: Vec<String>)
    ensures
        sorting::text_views(r@) == error_lines(issues@, issues@.len()),
{
    let mut out: Vec<String> = Vec::new();
    let mut i: usize = 0;
    assert(sorting::text_views(out@) =~= Seq::empty());
    while i < issues.len()
        invariant
            i <= issues@.len(),
            sorting::text_views(out@) == error_lines(issues@, i as nat),
        decreases issues@.len() - i,
    {
        if issues[i].level == Level::Error {
            let ghost before = out@;
            out.push(issues[i].line.clone());
            assert(sorting::text_views(out@) =~= sorting::text_views(before).push(
                issues@[i as int].line@,
            ));
        }
        i += 1;
    }
    out
}

// JSON.

/// A finding in a report.
pub open spec fn finding_json(f: findings::FindingView) -> report::ReportView {
    report::ReportView::Obj(
        seq![
            ("tier"@, report::ReportView::Str(f.tier.label_text())),
            ("code"@, report::ReportView::Str(f.code)),
            ("detail"@, report::ReportView::Str(f.detail)),
        ],
    )
}

/// A report as JSON: the classification and what it means, the findings, the errors of the validator
/// and the losses.
pub open spec fn report_json(r: ProfileReport, loss: report::ReportView) -> report::ReportView {
    report::ReportView::Obj(
        seq![
            ("classification"@, report::ReportView::Str(r.classification.label_text())),
            ("meaning"@, report::ReportView::Str(r.classification.meaning_text())),
            ("in_profile"@, report::ReportView::Bool(r.classification != Tier::OutOfProfile)),
            (
                "findings"@,
                report::ReportView::Arr(
                    findings::finding_views(r.findings@).map_values(
                        |f: findings::FindingView| finding_json(f),
                    ),
                ),
            ),
            (
                "validator_errors"@,
                report::ReportView::Arr(
                    error_lines(r.issues@, r.issues@.len()).map_values(
                        |line: Seq<char>| report::ReportView::Str(line),
                    ),
                ),
            ),
            ("loss_manifest"@, loss),
        ],
    )
}

fn finding_value(f: &Finding) -> (r: Json)
    ensures
        r@ == finding_json(f@),
{
    let mut pairs: Vec<(String, Json)> = Vec::new();
    pairs.push(("tier".to_owned(), Json::Str(f.tier.label().to_owned())));
    pairs.push(("code".to_owned(), Json::Str(f.code.clone())));
    pairs.push(("detail".to_owned(), Json::Str(f.detail.clone())));
    proof {
        report::object_view(pairs);
        assert(report::pair_views(pairs@) =~= finding_json(f@)->Obj_0);
    }
    Json::Obj(pairs)
}

fn findings_value(list: &Vec<Finding>) -> (r: Json)
    ensures
        r@ == report::ReportView::Arr(
            findings::finding_views(list@).map_values(
                |f: findings::FindingView| finding_json(f),
            ),
        ),
{
    let ghost wanted = findings::finding_views(list@).map_values(
        |f: findings::FindingView| finding_json(f),
    );
    let mut items: Vec<Json> = Vec::new();
    let mut i: usize = 0;
    assert(report::value_views(items@) =~= wanted.take(0));
    while i < list.len()
        invariant
            i <= list@.len(),
            wanted == findings::finding_views(list@).map_values(
                |f: findings::FindingView| finding_json(f),
            ),
            report::value_views(items@) == wanted.take(i as int),
        decreases list@.len() - i,
    {
        let ghost before = items@;
        let v = finding_value(&list[i]);
        items.push(v);
        assert(wanted[i as int] == finding_json(list@[i as int]@));
        assert(report::value_views(items@) =~= report::value_views(before).push(v@));
        assert(wanted.take(i + 1) =~= wanted.take(i as int).push(v@));
        i += 1;
    }
    proof {
        assert(wanted.take(wanted.len() as int) =~= wanted);
        report::list_view(items);
    }
    Json::Arr(items)
}

fn lines_value(lines: Vec<String>) -> (r: Json)
    ensures
        r@ == report::ReportView::Arr(
            sorting::text_views(lines@).map_values(
                |line: Seq<char>| report::ReportView::Str(line),
            ),
        ),
{
    let ghost wanted = sorting::text_views(lines@).map_values(
        |line: Seq<char>| report::ReportView::Str(line),
    );
    let mut items: Vec<Json> = Vec::new();
    let mut i: usize = 0;
    assert(report::value_views(items@) =~= wanted.take(0));
    while i < lines.len()
        invariant
            i <= lines@.len(),
            wanted == sorting::text_views(lines@).map_values(
                |line: Seq<char>| report::ReportView::Str(line),
            ),
            report::value_views(items@) == wanted.take(i as int),
        decreases lines@.len() - i,
    {
        let ghost before = items@;
        let v = Json::Str(lines[i].clone());
        items.push(v);
        assert(wanted[i as int] == v@);
        assert(report::value_views(items@) =~= report::value_views(before).push(v@));
        assert(wanted.take(i + 1) =~= wanted.take(i as int).push(v@));
        i += 1;
    }
    proof {
        assert(wanted.take(wanted.len() as int) =~= wanted);
        report::list_view(items);
    }
    Json::Arr(items)
}

// Markdown.

/// What follows the first line break of a text.
pub open spec fn after_line(text: Seq<char>) -> Seq<char>
    decreases text.len(),
{
    if text.len() == 0 {
        text
    } else if text[0] == '\n' {
        text.drop_first()
    } else {
        after_line(text.drop_first())
    }
}

/// What follows the second line break of a text; what follows the only one; or the whole text.
pub open spec fn after_two_lines(text: Seq<char>) -> Seq<char> {
    if !text.contains('\n') {
        text
    } else if after_line(text).contains('\n') {
        after_line(after_line(text))
    } else {
        after_line(text)
    }
}

proof fn after_line_skips(text: Seq<char>, at: int)
    requires
        text::is_first(text, '\n', at),
    ensures
        after_line(text) == text.skip(at + 1),
    decreases text.len(),
{
    if at == 0 {
        assert(text.drop_first() =~= text.skip(1));
    } else {
        let rest = text.drop_first();
        assert(text[0] != '\n');
        assert(text::is_first(rest, '\n', at - 1));
        after_line_skips(rest, at - 1);
        assert(rest.skip(at) =~= text.skip(at + 1));
    }
}

/// What follows the second line break of a text; what follows the only one; or the whole text.
pub fn split_after_two_newlines(s: &str) -> (r: String)
    ensures
        r@ == after_two_lines(s@),
{
    let cs = text::chars(s);
    let n: usize = cs.len();
    match text::find(cs.as_slice(), '\n', 0) {
        None => {
            proof {
                assert forall|k: int| 0 <= k < s@.len() implies s@[k] != '\n' by {
                    assert(cs@[k] != '\n');
                }
            }
            s.to_owned()
        },
        Some(first) => {
            let ghost rest = s@.skip(first + 1);
            proof {
                assert(s@[first as int] == '\n');
                assert(text::is_first(s@, '\n', first as int));
                after_line_skips(s@, first as int);
            }
            match text::find(cs.as_slice(), '\n', first + 1) {
                None => {
                    proof {
                        assert forall|k: int| 0 <= k < rest.len() implies rest[k] != '\n' by {
                            assert(cs@[k + first + 1] != '\n');
                        }
                        assert(s@.subrange(first + 1, n as int) =~= rest);
                    }
                    text::text_of_range(cs.as_slice(), first + 1, n)
                },
                Some(second) => {
                    proof {
                        let at = second - first - 1;
                        assert(rest[at] == '\n');
                        assert forall|k: int| 0 <= k < at implies rest[k] != '\n' by {
                            assert(cs@[k + first + 1] != '\n');
                        }
                        assert(text::is_first(rest, '\n', at));
                        after_line_skips(rest, at);
                        assert(s@.subrange(second + 1, n as int) =~= rest.skip(at + 1));
                    }
                    text::text_of_range(cs.as_slice(), second + 1, n)
                },
            }
        },
    }
}

/// The lines of a section of findings, with how many there are; nothing where there are none.
pub open spec fn finding_section(heading: Seq<char>, list: Seq<findings::FindingView>) -> Seq<
    Seq<char>,
> {
    if list.len() == 0 {
        Seq::empty()
    } else {
        seq![heading + " ("@ + text::decimal(list.len()) + ")"@] + list.map_values(
            |f: findings::FindingView| "- `"@ + f.code + "` "@ + f.detail,
        ) + seq![Seq::empty()]
    }
}

/// The lines of the section of validator errors; nothing where there are none.
pub open spec fn error_section(lines: Seq<Seq<char>>) -> Seq<Seq<char>> {
    if lines.len() == 0 {
        Seq::empty()
    } else {
        seq!["## Validator errors ("@ + text::decimal(lines.len()) + ")"@] + lines.map_values(
            |line: Seq<char>| "- "@ + line,
        ) + seq![Seq::empty()]
    }
}

/// The lines of a report in markdown. The body of the losses is what the manifest has after its own
/// title.
pub open spec fn markdown_lines(r: ProfileReport, loss: Seq<char>) -> Seq<Seq<char>> {
    let views = findings::finding_views(r.findings@);
    seq![
        "# HCDF-URDF profile: "@ + r.classification.label_text(),
        Seq::empty(),
        r.classification.meaning_text(),
        Seq::empty(),
    ] + finding_section(
        "## Out-of-profile drivers"@,
        at_tier(views, Tier::OutOfProfile, views.len()),
    ) + finding_section(
        "## Transform / bake needed"@,
        at_tier(views, Tier::WithTransform, views.len()),
    ) + error_section(error_lines(r.issues@, r.issues@.len())) + seq![
        "## Field-level loss manifest"@,
        Seq::empty(),
        if r.loss.entries@.len() == 0 {
            "_No field-level losses._"@
        } else {
            after_two_lines(loss)
        },
    ]
}

/// Adds a line.
fn push_line(lines: &mut Vec<String>, line: String)
    ensures
        sorting::text_views(final(lines)@) == sorting::text_views(old(lines)@) + seq![line@],
{
    let ghost before = lines@;
    let ghost words = line@;
    lines.push(line);
    assert(sorting::text_views(lines@) =~= sorting::text_views(before) + seq![words]);
}

fn push_finding_section(lines: &mut Vec<String>, heading: &str, list: &Vec<&Finding>)
    ensures
        sorting::text_views(final(lines)@) == sorting::text_views(old(lines)@) + finding_section(
            heading@,
            borrowed_views(list@),
        ),
{
    let ghost start = sorting::text_views(lines@);
    let ghost views = borrowed_views(list@);
    let ghost wanted = views.map_values(
        |f: findings::FindingView| "- `"@ + f.code + "` "@ + f.detail,
    );
    if list.len() == 0 {
        assert(start + finding_section(heading@, views) =~= start);
        return;
    }
    let mut title: String = heading.to_owned();
    title.append(" (");
    title.append(text::decimal_text(list.len() as u64).as_str());
    title.append(")");
    let ghost head = title@;
    push_line(lines, title);
    let mut i: usize = 0;
    assert(sorting::text_views(lines@) =~= start + (seq![head] + wanted.take(0)));
    while i < list.len()
        invariant
            i <= list@.len(),
            views == borrowed_views(list@),
            wanted == views.map_values(
                |f: findings::FindingView| "- `"@ + f.code + "` "@ + f.detail,
            ),
            sorting::text_views(lines@) == start + (seq![head] + wanted.take(i as int)),
        decreases list@.len() - i,
    {
        let f: &Finding = list[i];
        assert(views[i as int] == f@);
        let mut line: String = "- `".to_owned();
        line.append(f.code.as_str());
        line.append("` ");
        line.append(f.detail.as_str());
        let ghost words = line@;
        push_line(lines, line);
        assert(wanted[i as int] == words);
        assert(sorting::text_views(lines@) =~= start + (seq![head] + wanted.take(i + 1)));
        i += 1;
    }
    push_line(lines, String::new());
    proof {
        assert(wanted.take(wanted.len() as int) =~= wanted);
        let empty: Seq<char> = Seq::empty();
        assert(sorting::text_views(lines@).last() =~= empty);
        assert(sorting::text_views(lines@) =~= start + finding_section(heading@, views));
    }
}

fn push_error_section(lines: &mut Vec<String>, errors: &Vec<String>)
    ensures
        sorting::text_views(final(lines)@) == sorting::text_views(old(lines)@) + error_section(
            sorting::text_views(errors@),
        ),
{
    let ghost start = sorting::text_views(lines@);
    let ghost views = sorting::text_views(errors@);
    let ghost wanted = views.map_values(|line: Seq<char>| "- "@ + line);
    if errors.len() == 0 {
        assert(start + error_section(views) =~= start);
        return;
    }
    let mut title: String = "## Validator errors (".to_owned();
    title.append(text::decimal_text(errors.len() as u64).as_str());
    title.append(")");
    let ghost head = title@;
    push_line(lines, title);
    let mut i: usize = 0;
    assert(sorting::text_views(lines@) =~= start + (seq![head] + wanted.take(0)));
    while i < errors.len()
        invariant
            i <= errors@.len(),
            views == sorting::text_views(errors@),
            wanted == views.map_values(|line: Seq<char>| "- "@ + line),
            sorting::text_views(lines@) == start + (seq![head] + wanted.take(i as int)),
        decreases errors@.len() - i,
    {
        assert(views[i as int] == errors@[i as int]@);
        let mut line: String = "- ".to_owned();
        line.append(errors[i].as_str());
        let ghost words = line@;
        push_line(lines, line);
        assert(wanted[i as int] == words);
        assert(sorting::text_views(lines@) =~= start + (seq![head] + wanted.take(i + 1)));
        i += 1;
    }
    push_line(lines, String::new());
    proof {
        assert(wanted.take(wanted.len() as int) =~= wanted);
        let empty: Seq<char> = Seq::empty();
        assert(sorting::text_views(lines@).last() =~= empty);
        assert(sorting::text_views(lines@) =~= start + error_section(views));
    }
}

impl ProfileReport {
    /// Whether the document can be consumed as URDF.
    pub fn in_profile(&self) -> (r: bool)
        ensures
            r == (self.classification != Tier::OutOfProfile),
    {
        self.classification != Tier::OutOfProfile
    }

    /// The findings at a tier, in order.
    pub fn by_tier(&self, tier: Tier) -> (r: Vec<&Finding>)
        ensures
            borrowed_views(r@) == at_tier(
                findings::finding_views(self.findings@),
                tier,
                self.findings@.len(),
            ),
    {
        let ghost views = findings::finding_views(self.findings@);
        let mut out: Vec<&Finding> = Vec::new();
        let mut i: usize = 0;
        assert(borrowed_views(out@) =~= Seq::empty());
        while i < self.findings.len()
            invariant
                i <= self.findings@.len(),
                views == findings::finding_views(self.findings@),
                borrowed_views(out@) == at_tier(views, tier, i as nat),
            decreases self.findings@.len() - i,
        {
            assert(views[i as int] == self.findings@[i as int]@);
            if self.findings[i].tier == tier {
                let ghost before = out@;
                out.push(&self.findings[i]);
                assert(borrowed_views(out@) =~= borrowed_views(before).push(views[i as int]));
            }
            i += 1;
        }
        out
    }

    /// The report as JSON. `loss` is the manifest of losses as JSON.
    pub fn to_json_value(&self, loss: Json) -> (r: Json)
        ensures
            r@ == report_json(*self, loss@),
    {
        let mut pairs: Vec<(String, Json)> = Vec::new();
        pairs.push(
            ("classification".to_owned(), Json::Str(self.classification.label().to_owned())),
        );
        pairs.push(("meaning".to_owned(), Json::Str(self.classification.meaning().to_owned())));
        pairs.push(("in_profile".to_owned(), Json::Bool(self.in_profile())));
        pairs.push(("findings".to_owned(), findings_value(&self.findings)));
        pairs.push(
            ("validator_errors".to_owned(), lines_value(collect_error_lines(&self.issues))),
        );
        pairs.push(("loss_manifest".to_owned(), loss));
        proof {
            report::object_view(pairs);
            assert(report::pair_views(pairs@) =~= report_json(*self, loss@)->Obj_0);
        }
        Json::Obj(pairs)
    }

    /// The text of the report as JSON, without a newline at its end.
    pub fn to_json(&self, loss: Json) -> (r: String)
        ensures
            r@ == report::report_text(report_json(*self, loss@), ""@),
    {
        let v = self.to_json_value(loss);
        dump(&v)
    }

    /// The report in markdown, with one newline at its end. `loss` is the manifest of losses in
    /// markdown, under a title of its own.
    pub fn markdown(&self, loss: &str) -> (r: String)
        ensures
            r@ == text::trimmed_end(
                sorting::joined(
                    markdown_lines(*self, loss@),
                    "\n"@,
                    markdown_lines(*self, loss@).len(),
                ),
            ) + "\n"@,
    {
        let mut lines: Vec<String> = Vec::new();
        let mut title: String = "# HCDF-URDF profile: ".to_owned();
        title.append(self.classification.label());
        push_line(&mut lines, title);
        push_line(&mut lines, String::new());
        push_line(&mut lines, self.classification.meaning().to_owned());
        push_line(&mut lines, String::new());
        let out = self.by_tier(Tier::OutOfProfile);
        let transforms = self.by_tier(Tier::WithTransform);
        let errors = collect_error_lines(&self.issues);
        proof {
            let empty: Seq<char> = Seq::empty();
            let head = sorting::text_views(lines@);
            assert(head[1] =~= empty);
            assert(head[3] =~= empty);
            assert(head =~= seq![
                "# HCDF-URDF profile: "@ + self.classification.label_text(),
                empty,
                self.classification.meaning_text(),
                empty,
            ]);
        }
        push_finding_section(&mut lines, "## Out-of-profile drivers", &out);
        push_finding_section(&mut lines, "## Transform / bake needed", &transforms);
        push_error_section(&mut lines, &errors);
        let ghost before = sorting::text_views(lines@);
        push_line(&mut lines, "## Field-level loss manifest".to_owned());
        push_line(&mut lines, String::new());
        if self.loss.is_empty() {
            push_line(&mut lines, "_No field-level losses._".to_owned());
        } else {
            push_line(&mut lines, split_after_two_newlines(loss));
        }
        proof {
            let empty: Seq<char> = Seq::empty();
            assert(sorting::text_views(lines@)[before.len() as int + 1] =~= empty);
            assert(sorting::text_views(lines@) =~= markdown_lines(*self, loss@));
            assert(sorting::text_views(lines@).len() == lines@.len());
        }
        let mut text = text::trim_end(join_texts(&lines, "\n").as_str());
        text.append("\n");
        text
    }
}

} // verus!
