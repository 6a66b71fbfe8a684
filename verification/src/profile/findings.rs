//! The findings that classify a document.
use vstd::prelude::*;
use crate::model::enums::{BodyFrame, CompRole, JointType, WorldFrame};
use crate::model::{
    Collision, CollisionGeometry, Comp, Hcdf, Inertial, Joint, Pose, Visual, VisualAppearance,
    VisualGeometry,
};
use crate::quote;
use crate::quote::{repr_enum, repr_opt, repr_str};
use crate::sorting;
use crate::sorting::{join_texts, sort_texts};
use crate::text;

verus! {

/// The three tiers of the profile, from the best to the worst.
#[derive(Debug, Clone, Copy, PartialEq, Eq, PartialOrd, Ord, Structural)]
pub enum Tier {
    /// The export keeps every value; nothing is dropped.
    Identity,
    /// The export keeps every value after a frame conversion, a bake or the flattening of includes.
    WithTransform,
    /// The export drops content of the model.
    OutOfProfile,
}

impl Tier {
    /// The place of a tier from the best to the worst.
    pub open spec fn rank(self) -> int {
        match self {
            Tier::Identity => 0,
            Tier::WithTransform => 1,
            Tier::OutOfProfile => 2,
        }
    }

    /// The name of a tier in reports.
    pub open spec fn label_text(self) -> Seq<char> {
        match self {
            Tier::Identity => "IN-PROFILE-IDENTITY"@,
            Tier::WithTransform => "IN-PROFILE-WITH-FRAME-TRANSFORM"@,
            Tier::OutOfProfile => "OUT-OF-PROFILE"@,
        }
    }

    /// What a tier means, in one line.
    pub open spec fn meaning_text(self) -> Seq<char> {
        match self {
            Tier::Identity =>
                "Exports to clean valid URDF with a value-exact round-trip; nothing dropped."@,
            Tier::WithTransform =>
                "Exports losslessly after a frame conversion, GLB-appearance bake, or include flatten."@,
            Tier::OutOfProfile =>
                "Exporting to URDF drops model-significant content; the URDF is a lossy projection."@,
        }
    }

    /// The name of a tier in reports.
    pub fn label(self) -> (r: &'static str)
        ensures
            r@ == self.label_text(),
    {
        match self {
            Tier::Identity => "IN-PROFILE-IDENTITY",
            Tier::WithTransform => "IN-PROFILE-WITH-FRAME-TRANSFORM",
            Tier::OutOfProfile => "OUT-OF-PROFILE",
        }
    }

    /// What a tier means, in one line.
    pub fn meaning(self) -> (r: &'static str)
        ensures
            r@ == self.meaning_text(),
    {
        match self {
            Tier::Identity =>
                "Exports to clean valid URDF with a value-exact round-trip; nothing dropped.",
            Tier::WithTransform =>
                "Exports losslessly after a frame conversion, GLB-appearance bake, or include flatten.",
            Tier::OutOfProfile =>
                "Exporting to URDF drops model-significant content; the URDF is a lossy projection.",
        }
    }
}

/// One reason why a document is at a tier.
#[derive(Debug, Clone, PartialEq, Eq)]
pub struct Finding {
    pub tier: Tier,
    pub code: String,
    pub detail: String,
}

/// What a finding holds.
pub struct FindingView {
    pub tier: Tier,
    pub code: Seq<char>,
    pub detail: Seq<char>,
}

impl View for Finding {
    type V = FindingView;

    open spec fn view(&self) -> FindingView {
        FindingView { tier: self.tier, code: self.code@, detail: self.detail@ }
    }
}

/// What a list of findings holds.
pub open spec fn finding_views(list: Seq<Finding>) -> Seq<FindingView> {
    list.map_values(|f: Finding| f@)
}

/// How serious an issue of a validator is.
#[derive(Debug, Clone, Copy, PartialEq, Eq, Structural)]
pub enum Level {
    Error,
    Warning,
}

/// An issue that a validator found: its level, code and message, and the line that reports it.
#[derive(Debug, Clone, PartialEq, Eq)]
pub struct Issue {
    pub level: Level,
    pub code: String,
    pub message: String,
    pub line: String,
}

/// One thing that an export does not carry over.
#[derive(Debug, Clone, PartialEq, Eq)]
pub struct LossEntry {
    pub category: String,
    pub detail: String,
}

/// Everything that an export does not carry over.
#[derive(Debug, Clone, PartialEq, Eq)]
pub struct LossManifest {
    pub entries: Vec<LossEntry>,
}

impl LossManifest {
    /// A manifest of no losses.
    pub fn new() -> (r: Self)
        ensures
            r.entries@.len() == 0,
    {
        LossManifest { entries: Vec::new() }
    }

    /// Notes one loss.
    pub fn add(&mut self, category: &str, detail: String)
        ensures
            final(self).entries@.len() == old(self).entries@.len() + 1,
            final(self).entries@.drop_last() == old(self).entries@,
            final(self).entries@.last().category@ == category@,
            final(self).entries@.last().detail@ == detail@,
    {
        let ghost before = self.entries@;
        self.entries.push(LossEntry { category: category.to_owned(), detail });
        assert(self.entries@.drop_last() =~= before);
    }

    /// Whether nothing is lost.
    pub fn is_empty(&self) -> (r: bool)
        ensures
            r == (self.entries@.len() == 0),
    {
        self.entries.len() == 0
    }
}

/// The tier of a document with the reasons for it, the losses of its export and the issues that the
/// validator found.
#[derive(Debug, Clone)]
pub struct ProfileReport {
    pub classification: Tier,
    pub findings: Vec<Finding>,
    pub loss: LossManifest,
    pub issues: Vec<Issue>,
}

// What the findings are.

/// A finding where a condition holds.
pub open spec fn note(holds: bool, tier: Tier, code: Seq<char>, detail: Seq<char>) -> Seq<
    FindingView,
> {
    if holds {
        seq![FindingView { tier, code, detail }]
    } else {
        Seq::empty()
    }
}

/// Adds a finding where a condition holds.
fn note_if(out: &mut Vec<Finding>, holds: bool, tier: Tier, code: &str, detail: String)
    ensures
        finding_views(final(out)@) == finding_views(old(out)@) + note(holds, tier, code@, detail@),
{
    let ghost before = out@;
    let ghost words = detail@;
    if holds {
        out.push(Finding { tier, code: code.to_owned(), detail });
    }
    assert(finding_views(out@) =~= finding_views(before) + note(holds, tier, code@, words));
}

/// Adds the findings of a list.
fn add_all(out: &mut Vec<Finding>, more: Vec<Finding>)
    ensures
        finding_views(final(out)@) == finding_views(old(out)@) + finding_views(more@),
{
    let ghost before = out@;
    let ghost added = more@;
    let mut more = more;
    out.append(&mut more);
    assert(finding_views(out@) =~= finding_views(before) + finding_views(added));
}

/// What an optional text holds.
pub open spec fn option_view(text: Option<String>) -> Option<Seq<char>> {
    match text {
        Some(s) => Some(s@),
        None => None,
    }
}

fn quoted_or_none(value: &Option<String>) -> (r: String)
    ensures
        r@ == quote::quoted_option(option_view(*value)),
{
    match value {
        Some(s) => repr_opt(Some(s.as_str())),
        None => repr_opt(None),
    }
}

fn concat3(a: &str, b: &str, c: &str) -> (r: String)
    ensures
        r@ == a@ + b@ + c@,
{
    let mut out: String = a.to_owned();
    out.append(b);
    out.append(c);
    out
}

// The tree of components.

/// Whether an issue says that the joints do not make a tree.
pub open spec fn breaks_the_tree(issue: Issue) -> bool {
    issue.level == Level::Error && (issue.code@ == "E_MULTI_PARENT"@ || issue.code@ == "E_CYCLE"@
        || issue.code@ == "E_SELF_JOINT"@ || issue.code@ == "E_LOOP_REF"@)
}

/// The findings that the first `n` issues give.
pub open spec fn tree_notes(issues: Seq<Issue>, n: nat) -> Seq<FindingView>
    decreases n,
{
    if n == 0 || n > issues.len() {
        Seq::empty()
    } else {
        tree_notes(issues, (n - 1) as nat) + note(
            breaks_the_tree(issues[n - 1]),
            Tier::OutOfProfile,
            "P_NOT_A_TREE"@,
            issues[n - 1].code@ + ": "@ + issues[n - 1].message@,
        )
    }
}

fn tree_findings(issues: &Vec<Issue>) -> (r: Vec<Finding>)
    ensures
        finding_views(r@) == tree_notes(issues@, issues@.len()),
{
    let mut out: Vec<Finding> = Vec::new();
    let mut i: usize = 0;
    assert(finding_views(out@) =~= Seq::empty());
    while i < issues.len()
        invariant
            i <= issues@.len(),
            finding_views(out@) == tree_notes(issues@, i as nat),
        decreases issues@.len() - i,
    {
        let issue = &issues[i];
        let is_error = match issue.level {
            Level::Error => true,
            Level::Warning => false,
        };
        let code = issue.code.as_str();
        let breaks = is_error && (text::same(code, "E_MULTI_PARENT") || text::same(code, "E_CYCLE")
            || text::same(code, "E_SELF_JOINT") || text::same(code, "E_LOOP_REF"));
        note_if(
            &mut out,
            breaks,
            Tier::OutOfProfile,
            "P_NOT_A_TREE",
            concat3(code, ": ", issue.message.as_str()),
        );
        i += 1;
    }
    out
}

/// Whether a joint that closes no loop attaches a component of this name.
pub open spec fn attaches(joint: Joint, name: Seq<char>) -> bool {
    joint.loop_ is None && joint.child is Some && joint.child->0.comp is Some
        && joint.child->0.comp->0@ == name
}

/// Whether some joint attaches a component of this name.
pub open spec fn is_attached(joints: Seq<Joint>, name: Seq<char>) -> bool {
    exists|i: int| 0 <= i < joints.len() && attaches(#[trigger] joints[i], name)
}

fn attached(joints: &Vec<Joint>, name: &str) -> (r: bool)
    ensures
        r == is_attached(joints@, name@),
{
    let mut i: usize = 0;
    while i < joints.len()
        invariant
            i <= joints@.len(),
            forall|k: int| 0 <= k < i ==> !attaches(#[trigger] joints@[k], name@),
        decreases joints@.len() - i,
    {
        let joint = &joints[i];
        if joint.loop_.is_none() {
            if let Some(child) = &joint.child {
                if let Some(comp) = &child.comp {
                    if text::same(comp.as_str(), name) {
                        assert(attaches(joints@[i as int], name@));
                        return true;
                    }
                }
            }
        }
        i += 1;
    }
    false
}

/// The names of those of the first `n` components that no joint attaches.
pub open spec fn root_names(comps: Seq<Comp>, joints: Seq<Joint>, n: nat) -> Seq<Seq<char>>
    decreases n,
{
    if n == 0 || n > comps.len() {
        Seq::empty()
    } else {
        let before = root_names(comps, joints, (n - 1) as nat);
        if is_attached(joints, comps[n - 1].name@) {
            before
        } else {
            before.push(comps[n - 1].name@)
        }
    }
}

/// The words for several roots: how many, and their names in ascending order.
pub open spec fn several_roots(roots: Seq<Seq<char>>) -> Seq<char> {
    let quoted = sorting::sorted(roots).map_values(|name: Seq<char>| quote::quoted(name));
    text::decimal(roots.len()) + " roots ("@ + sorting::joined(quoted, ", "@, quoted.len())
        + "); URDF is one robot with one root link (a network-only comp counts as an extra root)"@
}

/// The finding on the root of the tree.
pub open spec fn root_notes(doc: Hcdf) -> Seq<FindingView> {
    let roots = root_names(doc.comp@, doc.joint@, doc.comp@.len());
    if doc.comp@.len() > 0 && roots.len() == 0 {
        note(
            true,
            Tier::OutOfProfile,
            "P_NO_ROOT"@,
            "no root comp (every comp is a joint child; a tree needs one root)"@,
        )
    } else {
        note(roots.len() > 1, Tier::OutOfProfile, "P_MULTI_ROOT"@, several_roots(roots))
    }
}

fn several_roots_text(roots: Vec<String>) -> (r: String)
    ensures
        r@ == several_roots(sorting::text_views(roots@)),
{
    let ghost names = sorting::text_views(roots@);
    let count: u64 = roots.len() as u64;
    let list = sort_texts(roots);
    let ghost ordered = sorting::sorted(names);
    let ghost wanted = ordered.map_values(|name: Seq<char>| quote::quoted(name));
    let mut quoted: Vec<String> = Vec::new();
    let mut i: usize = 0;
    assert(sorting::text_views(quoted@) =~= wanted.take(0));
    assert(ordered.len() == list@.len());
    while i < list.len()
        invariant
            i <= list@.len(),
            sorting::text_views(list@) == ordered,
            ordered.len() == list@.len(),
            wanted == ordered.map_values(|name: Seq<char>| quote::quoted(name)),
            sorting::text_views(quoted@) == wanted.take(i as int),
        decreases list@.len() - i,
    {
        let ghost before = quoted@;
        assert(ordered[i as int] == list@[i as int]@);
        let q = repr_str(list[i].as_str());
        quoted.push(q);
        assert(sorting::text_views(quoted@) =~= sorting::text_views(before).push(q@));
        assert(wanted[i as int] == q@);
        assert(wanted.take(i + 1) =~= wanted.take(i as int).push(q@));
        i += 1;
    }
    assert(wanted.take(wanted.len() as int) =~= wanted);
    assert(quoted@.len() == wanted.len());
    let mut out: String = text::decimal_text(count);
    out.append(" roots (");
    out.append(join_texts(&quoted, ", ").as_str());
    out.append(
        "); URDF is one robot with one root link (a network-only comp counts as an extra root)",
    );
    out
}

fn root_findings(doc: &Hcdf) -> (r: Vec<Finding>)
    ensures
        finding_views(r@) == root_notes(*doc),
{
    let mut roots: Vec<String> = Vec::new();
    let mut i: usize = 0;
    assert(sorting::text_views(roots@) =~= Seq::empty());
    while i < doc.comp.len()
        invariant
            i <= doc.comp@.len(),
            sorting::text_views(roots@) == root_names(doc.comp@, doc.joint@, i as nat),
        decreases doc.comp@.len() - i,
    {
        if !attached(&doc.joint, doc.comp[i].name.as_str()) {
            let ghost before = roots@;
            roots.push(doc.comp[i].name.clone());
            assert(sorting::text_views(roots@) =~= sorting::text_views(before).push(
                doc.comp@[i as int].name@,
            ));
        }
        i += 1;
    }
    let mut out: Vec<Finding> = Vec::new();
    assert(sorting::text_views(roots@).len() == roots@.len());
    assert(finding_views(out@) =~= Seq::empty());
    if doc.comp.len() > 0 && roots.len() == 0 {
        note_if(
            &mut out,
            true,
            Tier::OutOfProfile,
            "P_NO_ROOT",
            "no root comp (every comp is a joint child; a tree needs one root)".to_owned(),
        );
    } else {
        let several = roots.len() > 1;
        note_if(
            &mut out,
            several,
            Tier::OutOfProfile,
            "P_MULTI_ROOT",
            several_roots_text(roots),
        );
    }
    assert(finding_views(out@) =~= root_notes(*doc));
    out
}

fn concat2(a: &str, b: &str) -> (r: String)
    ensures
        r@ == a@ + b@,
{
    let mut out: String = a.to_owned();
    out.append(b);
    out
}

// Frames.

/// The findings on the frames of a document; URDF knows forward-left-up and east-north-up only.
pub open spec fn frame_notes(doc: Hcdf) -> Seq<FindingView> {
    note(
        doc.body_frame == Some(BodyFrame::FRD),
        Tier::WithTransform,
        "P_BODY_FRD"@,
        "body-frame FRD: body poses and joint axes are converted to URDF FLU on export (lossless)"@,
    ) + note(
        doc.world_frame == Some(WorldFrame::NED),
        Tier::WithTransform,
        "P_WORLD_NED"@,
        "world-frame NED: URDF is ENU; world-relative placements need conversion (note: to_urdf does not yet apply the world transform; body poses ARE converted)"@,
    )
}

fn frame_findings(doc: &Hcdf) -> (r: Vec<Finding>)
    ensures
        finding_views(r@) == frame_notes(*doc),
{
    let mut out: Vec<Finding> = Vec::new();
    let frd = match doc.body_frame {
        Some(frame) => frame == BodyFrame::FRD,
        None => false,
    };
    let ned = match doc.world_frame {
        Some(frame) => frame == WorldFrame::NED,
        None => false,
    };
    note_if(
        &mut out,
        frd,
        Tier::WithTransform,
        "P_BODY_FRD",
        "body-frame FRD: body poses and joint axes are converted to URDF FLU on export (lossless)".to_owned(),
    );
    note_if(
        &mut out,
        ned,
        Tier::WithTransform,
        "P_WORLD_NED",
        "world-frame NED: URDF is ENU; world-relative placements need conversion (note: to_urdf does not yet apply the world transform; body poses ARE converted)".to_owned(),
    );
    assert(finding_views(out@) =~= frame_notes(*doc));
    out
}

// Joints.

/// The joint types that URDF has too; free joints are its floating ones.
pub open spec fn is_urdf_joint(jt: JointType) -> bool {
    jt is Revolute || jt is Continuous || jt is Prismatic || jt is Fixed || jt is Free || jt is Planar
}

fn joint_type_in_profile(jt: JointType) -> (r: bool)
    ensures
        r == is_urdf_joint(jt),
{
    match jt {
        JointType::Revolute => true,
        JointType::Continuous => true,
        JointType::Prismatic => true,
        JointType::Fixed => true,
        JointType::Free => true,
        JointType::Planar => true,
        _ => false,
    }
}

/// The finding on the type of a joint.
pub open spec fn type_notes(kind: Option<JointType>, start: Seq<char>) -> Seq<FindingView> {
    match kind {
        Some(jt) => note(
            !is_urdf_joint(jt),
            Tier::OutOfProfile,
            "P_JOINT_TYPE"@,
            start + ": type "@ + quote::quoted(jt.literal()) + " has no URDF equivalent"@,
        ),
        None => Seq::empty(),
    }
}

fn type_findings(kind: &Option<JointType>, start: &str) -> (r: Vec<Finding>)
    ensures
        finding_views(r@) == type_notes(*kind, start@),
{
    let mut out: Vec<Finding> = Vec::new();
    if let Some(jt) = kind {
        let mut detail = concat3(start, ": type ", repr_str(jt.as_str()).as_str());
        detail.append(" has no URDF equivalent");
        note_if(
            &mut out,
            !joint_type_in_profile(*jt),
            Tier::OutOfProfile,
            "P_JOINT_TYPE",
            detail,
        );
    }
    assert(finding_views(out@) =~= type_notes(*kind, start@));
    out
}

/// The findings on a joint.
pub open spec fn joint_notes(j: Joint) -> Seq<FindingView> {
    let start = "joint "@ + quote::quoted_option(option_view(j.name));
    Seq::empty() + note(j.loop_ is Some, Tier::OutOfProfile, "P_LOOP"@, start + ": loop-closure (URDF is tree-only, cannot express a closed kinematic loop)"@)
        + type_notes(j.type_, start)
        + note(j.axis2 is Some, Tier::OutOfProfile, "P_AXIS2"@, start + ": <axis2> (URDF has a single axis)"@)
        + note(j.thread_pitch is Some, Tier::OutOfProfile, "P_THREAD_PITCH"@, start + ": thread_pitch (URDF has no screw joint)"@)
        + note(j.limit is Some && j.limit->0.acceleration is Some, Tier::OutOfProfile, "P_LIMIT_FIELD"@, start + ": limit/acceleration (URDF limit has only lower/upper/effort/velocity)"@)
        + note(j.limit is Some && j.limit->0.jerk is Some, Tier::OutOfProfile, "P_LIMIT_FIELD"@, start + ": limit/jerk (URDF limit has only lower/upper/effort/velocity)"@)
        + note(j.limit is Some && j.limit->0.deceleration is Some, Tier::OutOfProfile, "P_LIMIT_FIELD"@, start + ": limit/deceleration (URDF limit has only lower/upper/effort/velocity)"@)
        + note(j.dynamics is Some && j.dynamics->0.spring_stiffness is Some, Tier::OutOfProfile, "P_DYNAMICS_SPRING"@, start + ": dynamics/spring_stiffness (URDF dynamics has only damping/friction)"@)
        + note(j.dynamics is Some && j.dynamics->0.spring_reference is Some, Tier::OutOfProfile, "P_DYNAMICS_SPRING"@, start + ": dynamics/spring_reference (URDF dynamics has only damping/friction)"@)
        + note(j.extension is Some, Tier::OutOfProfile, "P_JOINT_EXTENSION"@, start + ": <extension> vendor data (no URDF home; joint extensions are not de-merged)"@)
}

fn joint_findings(j: &Joint) -> (r: Vec<Finding>)
    ensures
        finding_views(r@) == joint_notes(*j),
{
    let start = concat2("joint ", quoted_or_none(&j.name).as_str());
    let mut out: Vec<Finding> = Vec::new();
    assert(finding_views(out@) =~= Seq::empty());
    let holds = j.loop_.is_some();
    note_if(
        &mut out,
        holds,
        Tier::OutOfProfile,
        "P_LOOP",
        concat2(start.as_str(), ": loop-closure (URDF is tree-only, cannot express a closed kinematic loop)"),
    );
    add_all(&mut out, type_findings(&j.type_, start.as_str()));
    let holds = j.axis2.is_some();
    note_if(
        &mut out,
        holds,
        Tier::OutOfProfile,
        "P_AXIS2",
        concat2(start.as_str(), ": <axis2> (URDF has a single axis)"),
    );
    let holds = j.thread_pitch.is_some();
    note_if(
        &mut out,
        holds,
        Tier::OutOfProfile,
        "P_THREAD_PITCH",
        concat2(start.as_str(), ": thread_pitch (URDF has no screw joint)"),
    );
    let holds = match &j.limit {
        Some(limit) => limit.acceleration.is_some(),
        None => false,
    };
    note_if(
        &mut out,
        holds,
        Tier::OutOfProfile,
        "P_LIMIT_FIELD",
        concat2(start.as_str(), ": limit/acceleration (URDF limit has only lower/upper/effort/velocity)"),
    );
    let holds = match &j.limit {
        Some(limit) => limit.jerk.is_some(),
        None => false,
    };
    note_if(
        &mut out,
        holds,
        Tier::OutOfProfile,
        "P_LIMIT_FIELD",
        concat2(start.as_str(), ": limit/jerk (URDF limit has only lower/upper/effort/velocity)"),
    );
    let holds = match &j.limit {
        Some(limit) => limit.deceleration.is_some(),
        None => false,
    };
    note_if(
        &mut out,
        holds,
        Tier::OutOfProfile,
        "P_LIMIT_FIELD",
        concat2(start.as_str(), ": limit/deceleration (URDF limit has only lower/upper/effort/velocity)"),
    );
    let holds = match &j.dynamics {
        Some(dynamics) => dynamics.spring_stiffness.is_some(),
        None => false,
    };
    note_if(
        &mut out,
        holds,
        Tier::OutOfProfile,
        "P_DYNAMICS_SPRING",
        concat2(start.as_str(), ": dynamics/spring_stiffness (URDF dynamics has only damping/friction)"),
    );
    let holds = match &j.dynamics {
        Some(dynamics) => dynamics.spring_reference.is_some(),
        None => false,
    };
    note_if(
        &mut out,
        holds,
        Tier::OutOfProfile,
        "P_DYNAMICS_SPRING",
        concat2(start.as_str(), ": dynamics/spring_reference (URDF dynamics has only damping/friction)"),
    );
    let holds = j.extension.is_some();
    note_if(
        &mut out,
        holds,
        Tier::OutOfProfile,
        "P_JOINT_EXTENSION",
        concat2(start.as_str(), ": <extension> vendor data (no URDF home; joint extensions are not de-merged)"),
    );
    out
}

/// The findings on the first `n` joints.
pub open spec fn joints_notes(joints: Seq<Joint>, n: nat) -> Seq<FindingView>
    decreases n,
{
    if n == 0 || n > joints.len() {
        Seq::empty()
    } else {
        joints_notes(joints, (n - 1) as nat) + joint_notes(joints[n - 1])
    }
}

fn joints_findings(joints: &Vec<Joint>) -> (r: Vec<Finding>)
    ensures
        finding_views(r@) == joints_notes(joints@, joints@.len()),
{
    let mut out: Vec<Finding> = Vec::new();
    let mut i: usize = 0;
    assert(finding_views(out@) =~= Seq::empty());
    while i < joints.len()
        invariant
            i <= joints@.len(),
            finding_views(out@) == joints_notes(joints@, i as nat),
        decreases joints@.len() - i,
    {
        add_all(&mut out, joint_findings(&joints[i]));
        i += 1;
    }
    out
}

// Components.

/// How many words a text has: runs of characters that are no white space.
pub open spec fn word_count(text: Seq<char>) -> nat
    decreases text.len(),
{
    if text.len() == 0 {
        0
    } else {
        word_count(text.drop_last()) + (if !text::is_whitespace(text.last()) && (text.len() == 1
            || text::is_whitespace(text[text.len() - 2])) {
            1nat
        } else {
            0nat
        })
    }
}

/// Whether a text has six words.
fn has_six_words(text: &str) -> (r: bool)
    ensures
        r == (word_count(text@) == 6),
{
    let cs = text::chars(text);
    let mut words: usize = 0;
    let mut i: usize = 0;
    assert(text@.take(0) =~= Seq::empty());
    while i < cs.len()
        invariant
            i <= cs@.len(),
            cs@ == text@,
            words <= i,
            words == word_count(text@.take(i as int)),
        decreases cs@.len() - i,
    {
        let ghost upto = text@.take(i + 1);
        assert(upto.drop_last() =~= text@.take(i as int));
        assert(upto.last() == cs@[i as int]);
        if i > 0 {
            assert(upto[upto.len() - 2] == cs@[i - 1]);
        }
        if !text::whitespace(cs[i]) && (i == 0 || text::whitespace(cs[i - 1])) {
            words += 1;
        }
        i += 1;
    }
    assert(text@.take(text@.len() as int) =~= text@);
    words == 6
}

/// The finding on the inertia of a component.
pub open spec fn inertia_notes(inertial: Option<Inertial>, ctx: Seq<char>) -> Seq<FindingView> {
    if inertial is Some && inertial->0.inertia is Some {
        let inertia = inertial->0.inertia->0@;
        note(
            word_count(inertia) != 6,
            Tier::OutOfProfile,
            "P_INERTIA_ARITY"@,
            ctx + ": inertia tuple "@ + quote::quoted(inertia)
                + " is not 6 values (the rotational inertia matrix is dropped on URDF export)"@,
        )
    } else {
        Seq::empty()
    }
}

fn inertia_findings(inertial: &Option<Inertial>, ctx: &str) -> (r: Vec<Finding>)
    ensures
        finding_views(r@) == inertia_notes(*inertial, ctx@),
{
    let mut out: Vec<Finding> = Vec::new();
    if let Some(ip) = inertial {
        if let Some(inertia) = &ip.inertia {
            let mut detail = concat3(ctx, ": inertia tuple ", repr_str(inertia.as_str()).as_str());
            detail.append(
                " is not 6 values (the rotational inertia matrix is dropped on URDF export)",
            );
            note_if(
                &mut out,
                !has_six_words(inertia.as_str()),
                Tier::OutOfProfile,
                "P_INERTIA_ARITY",
                detail,
            );
        }
    }
    assert(finding_views(out@) =~= inertia_notes(*inertial, ctx@));
    out
}

/// The first of the shapes of a visual that URDF does not have.
pub open spec fn visual_bad_shape(geo: VisualGeometry) -> Option<Seq<char>> {
    if geo.capsule is Some {
        Some("capsule"@)
    } else if geo.cone is Some {
        Some("cone"@)
    } else if geo.ellipsoid is Some {
        Some("ellipsoid"@)
    } else {
        None
    }
}

/// The first of the shapes of a visual that URDF does not have, where the visual has any.
pub open spec fn optional_visual_bad_shape(geometry: Option<VisualGeometry>) -> Option<Seq<char>> {
    match geometry {
        Some(geo) => visual_bad_shape(geo),
        None => None,
    }
}

fn visual_bad_prim(geo: &VisualGeometry) -> (r: Option<&'static str>)
    ensures
        match visual_bad_shape(*geo) {
            Some(name) => r matches Some(s) && s@ == name,
            None => r is None,
        },
{
    if geo.capsule.is_some() {
        Some("capsule")
    } else if geo.cone.is_some() {
        Some("cone")
    } else if geo.ellipsoid.is_some() {
        Some("ellipsoid")
    } else {
        None
    }
}

/// The first of the shapes of a collision that URDF does not have.
pub open spec fn collision_bad_shape(geo: CollisionGeometry) -> Option<Seq<char>> {
    if geo.capsule is Some {
        Some("capsule"@)
    } else if geo.cone is Some {
        Some("cone"@)
    } else if geo.ellipsoid is Some {
        Some("ellipsoid"@)
    } else {
        None
    }
}

/// The first of the shapes of a collision that URDF does not have, where the collision has any.
pub open spec fn optional_collision_bad_shape(geometry: Option<CollisionGeometry>) -> Option<
    Seq<char>,
> {
    match geometry {
        Some(geo) => collision_bad_shape(geo),
        None => None,
    }
}

fn collision_bad_prim(geo: &CollisionGeometry) -> (r: Option<&'static str>)
    ensures
        match collision_bad_shape(*geo) {
            Some(name) => r matches Some(s) && s@ == name,
            None => r is None,
        },
{
    if geo.capsule.is_some() {
        Some("capsule")
    } else if geo.cone.is_some() {
        Some("cone")
    } else if geo.ellipsoid.is_some() {
        Some("ellipsoid")
    } else {
        None
    }
}

/// Whether a visual has a shape that URDF has too.
pub open spec fn visual_has_shape(geo: VisualGeometry) -> bool {
    geo.box_ is Some || geo.cylinder is Some || geo.sphere is Some
}

fn visual_has_urdf_prim(geo: &VisualGeometry) -> (r: bool)
    ensures
        r == visual_has_shape(*geo),
{
    geo.box_.is_some() || geo.cylinder.is_some() || geo.sphere.is_some()
}

/// Whether a collision has a shape that URDF has too.
pub open spec fn collision_has_shape(geo: CollisionGeometry) -> bool {
    geo.box_ is Some || geo.cylinder is Some || geo.sphere is Some || geo.mesh is Some
}

fn collision_has_urdf_prim(geo: &CollisionGeometry) -> (r: bool)
    ensures
        r == collision_has_shape(*geo),
{
    geo.box_.is_some() || geo.cylinder.is_some() || geo.sphere.is_some() || geo.mesh.is_some()
}

/// The finding on the shape of a visual or a collision: a shape that URDF does not have, or none that
/// it has.
pub open spec fn shape_notes(
    bad: Option<Seq<char>>,
    present: bool,
    start: Seq<char>,
    code: Seq<char>,
    without: Seq<char>,
) -> Seq<FindingView> {
    match bad {
        Some(name) => note(
            true,
            Tier::OutOfProfile,
            "P_GEOMETRY"@,
            start + ": <"@ + name + "> has no URDF primitive"@,
        ),
        None => note(!present, Tier::OutOfProfile, code, start + without),
    }
}

fn shape_findings(
    bad: Option<&'static str>,
    present: bool,
    start: &str,
    code: &str,
    without: &str,
    Ghost(shape): Ghost<Option<Seq<char>>>,
) -> (r: Vec<Finding>)
    requires
        match shape {
            Some(name) => bad matches Some(s) && s@ == name,
            None => bad is None,
        },
    ensures
        finding_views(r@) == shape_notes(shape, present, start@, code@, without@),
{
    let mut out: Vec<Finding> = Vec::new();
    match bad {
        Some(name) => {
            let mut detail = concat3(start, ": <", name);
            detail.append("> has no URDF primitive");
            note_if(&mut out, true, Tier::OutOfProfile, "P_GEOMETRY", detail);
        },
        None => {
            note_if(&mut out, !present, Tier::OutOfProfile, code, concat2(start, without));
        },
    }
    assert(finding_views(out@) =~= shape_notes(shape, present, start@, code@, without@));
    out
}

/// The finding on what a visual looks like.
pub open spec fn appearance_notes(appearance: VisualAppearance, start: Seq<char>) -> Seq<
    FindingView,
> {
    match appearance {
        VisualAppearance::Model { .. } => note(
            true,
            Tier::WithTransform,
            "P_GLB_MODEL"@,
            start
                + ": GLB <model>: geometry exports as a URDF mesh ref, but baked PBR/textures are not represented in URDF"@,
        ),
        VisualAppearance::Primitive { geometry, .. } => shape_notes(
            optional_visual_bad_shape(geometry),
            geometry is Some && visual_has_shape(geometry->0),
            start,
            "P_VISUAL_NO_GEOMETRY"@,
            ": neither a GLB <model> nor a URDF primitive, dropped on export"@,
        ),
    }
}

fn appearance_findings(appearance: &VisualAppearance, start: &str) -> (r: Vec<Finding>)
    ensures
        finding_views(r@) == appearance_notes(*appearance, start@),
{
    match appearance {
        VisualAppearance::Model { .. } => {
            let mut out: Vec<Finding> = Vec::new();
            note_if(
                &mut out,
                true,
                Tier::WithTransform,
                "P_GLB_MODEL",
                concat2(
                    start,
                    ": GLB <model>: geometry exports as a URDF mesh ref, but baked PBR/textures are not represented in URDF",
                ),
            );
            assert(finding_views(out@) =~= appearance_notes(*appearance, start@));
            out
        },
        VisualAppearance::Primitive { geometry, .. } => {
            let bad = match geometry {
                Some(geo) => visual_bad_prim(geo),
                None => None,
            };
            let has = match geometry {
                Some(geo) => visual_has_urdf_prim(geo),
                None => false,
            };
            shape_findings(
                bad,
                has,
                start,
                "P_VISUAL_NO_GEOMETRY",
                ": neither a GLB <model> nor a URDF primitive, dropped on export",
                Ghost(optional_visual_bad_shape(*geometry)),
            )
        },
    }
}

/// The findings on a visual.
pub open spec fn visual_notes(v: Visual, ctx: Seq<char>) -> Seq<FindingView> {
    let start = ctx + " visual "@ + quote::quoted(v.name@);
    appearance_notes(v.appearance, start) + note(
        v.toggle is Some,
        Tier::OutOfProfile,
        "P_VISUAL_TOGGLE"@,
        start + ": toggle group "@ + quote::quoted_option(option_view(v.toggle))
            + " (HCDF runtime show/hide grouping; no URDF home)"@,
    )
}

fn visual_findings(v: &Visual, ctx: &str) -> (r: Vec<Finding>)
    ensures
        finding_views(r@) == visual_notes(*v, ctx@),
{
    let start = concat3(ctx, " visual ", repr_str(v.name.as_str()).as_str());
    let mut out = appearance_findings(&v.appearance, start.as_str());
    let mut detail = concat3(
        start.as_str(),
        ": toggle group ",
        quoted_or_none(&v.toggle).as_str(),
    );
    detail.append(" (HCDF runtime show/hide grouping; no URDF home)");
    note_if(&mut out, v.toggle.is_some(), Tier::OutOfProfile, "P_VISUAL_TOGGLE", detail);
    out
}

/// The findings on the first `n` visuals of a component.
pub open spec fn visuals_notes(list: Seq<Visual>, ctx: Seq<char>, n: nat) -> Seq<FindingView>
    decreases n,
{
    if n == 0 || n > list.len() {
        Seq::empty()
    } else {
        visuals_notes(list, ctx, (n - 1) as nat) + visual_notes(list[n - 1], ctx)
    }
}

fn visuals_findings(list: &Vec<Visual>, ctx: &str) -> (r: Vec<Finding>)
    ensures
        finding_views(r@) == visuals_notes(list@, ctx@, list@.len()),
{
    let mut out: Vec<Finding> = Vec::new();
    let mut i: usize = 0;
    assert(finding_views(out@) =~= Seq::empty());
    while i < list.len()
        invariant
            i <= list@.len(),
            finding_views(out@) == visuals_notes(list@, ctx@, i as nat),
        decreases list@.len() - i,
    {
        add_all(&mut out, visual_findings(&list[i], ctx));
        i += 1;
    }
    out
}

/// The findings on a collision.
pub open spec fn collision_notes(c: Collision, ctx: Seq<char>) -> Seq<FindingView> {
    let start = ctx + " collision "@ + quote::quoted_option(option_view(c.name));
    shape_notes(
        optional_collision_bad_shape(c.geometry),
        c.geometry is Some && collision_has_shape(c.geometry->0),
        start,
        "P_COLLISION_NO_GEOMETRY"@,
        ": no URDF-representable geometry, dropped on export"@,
    ) + note(
        c.surface is Some,
        Tier::OutOfProfile,
        "P_SURFACE"@,
        start
            + ": <surface> contact physics (no URDF core home; lives in <gazebo> at sim time)"@,
    )
}

fn collision_findings(c: &Collision, ctx: &str) -> (r: Vec<Finding>)
    ensures
        finding_views(r@) == collision_notes(*c, ctx@),
{
    let start = concat3(ctx, " collision ", quoted_or_none(&c.name).as_str());
    let bad = match &c.geometry {
        Some(geo) => collision_bad_prim(geo),
        None => None,
    };
    let has = match &c.geometry {
        Some(geo) => collision_has_urdf_prim(geo),
        None => false,
    };
    let mut out = shape_findings(
        bad,
        has,
        start.as_str(),
        "P_COLLISION_NO_GEOMETRY",
        ": no URDF-representable geometry, dropped on export",
        Ghost(optional_collision_bad_shape(c.geometry)),
    );
    note_if(
        &mut out,
        c.surface.is_some(),
        Tier::OutOfProfile,
        "P_SURFACE",
        concat2(
            start.as_str(),
            ": <surface> contact physics (no URDF core home; lives in <gazebo> at sim time)",
        ),
    );
    out
}

/// The findings on the first `n` collisions of a component.
pub open spec fn collisions_notes(list: Seq<Collision>, ctx: Seq<char>, n: nat) -> Seq<FindingView>
    decreases n,
{
    if n == 0 || n > list.len() {
        Seq::empty()
    } else {
        collisions_notes(list, ctx, (n - 1) as nat) + collision_notes(list[n - 1], ctx)
    }
}

fn collisions_findings(list: &Vec<Collision>, ctx: &str) -> (r: Vec<Finding>)
    ensures
        finding_views(r@) == collisions_notes(list@, ctx@, list@.len()),
{
    let mut out: Vec<Finding> = Vec::new();
    let mut i: usize = 0;
    assert(finding_views(out@) =~= Seq::empty());
    while i < list.len()
        invariant
            i <= list@.len(),
            finding_views(out@) == collisions_notes(list@, ctx@, i as nat),
        decreases list@.len() - i,
    {
        add_all(&mut out, collision_findings(&list[i], ctx));
        i += 1;
    }
    out
}

/// The finding on elements that URDF has no place for.
pub open spec fn dropped_notes(code: Seq<char>, start: Seq<char>, n: nat, label: Seq<char>) -> Seq<
    FindingView,
> {
    note(
        n > 0,
        Tier::OutOfProfile,
        code,
        start + ": "@ + text::decimal(n) + " "@ + label + " (HCDF-only; no URDF home)"@,
    )
}

fn dropped_findings(code: &str, start: &str, n: u64, label: &str) -> (r: Vec<Finding>)
    ensures
        finding_views(r@) == dropped_notes(code@, start@, n as nat, label@),
{
    let mut out: Vec<Finding> = Vec::new();
    let mut detail = concat3(start, ": ", text::decimal_text(n).as_str());
    detail.append(" ");
    detail.append(label);
    detail.append(" (HCDF-only; no URDF home)");
    note_if(&mut out, n > 0, Tier::OutOfProfile, code, detail);
    assert(finding_views(out@) =~= dropped_notes(code@, start@, n as nat, label@));
    out
}

/// The finding on a text that URDF has no place for.
pub open spec fn metadata_notes(
    code: Seq<char>,
    start: Seq<char>,
    label: Seq<char>,
    value: Option<String>,
) -> Seq<FindingView> {
    match value {
        Some(v) => note(
            true,
            Tier::OutOfProfile,
            code,
            start + ": "@ + label + "="@ + quote::quoted(v@)
                + " (HCDF-only metadata; no URDF home)"@,
        ),
        None => Seq::empty(),
    }
}

fn metadata_findings(code: &str, start: &str, label: &str, value: &Option<String>) -> (r: Vec<
    Finding,
>)
    ensures
        finding_views(r@) == metadata_notes(code@, start@, label@, *value),
{
    let mut out: Vec<Finding> = Vec::new();
    if let Some(v) = value {
        let mut detail = concat3(start, ": ", label);
        detail.append("=");
        detail.append(repr_str(v.as_str()).as_str());
        detail.append(" (HCDF-only metadata; no URDF home)");
        note_if(&mut out, true, Tier::OutOfProfile, code, detail);
    }
    assert(finding_views(out@) =~= metadata_notes(code@, start@, label@, *value));
    out
}

/// The finding on the role of a component.
pub open spec fn role_notes(role: Option<CompRole>, start: Seq<char>) -> Seq<FindingView> {
    match role {
        Some(v) => note(
            true,
            Tier::OutOfProfile,
            "P_COMP_ROLE"@,
            start + ": role="@ + quote::quoted_enum("CompRole"@, v.literal())
                + " (HCDF-only metadata; no URDF home)"@,
        ),
        None => Seq::empty(),
    }
}

fn role_findings(role: &Option<CompRole>, start: &str) -> (r: Vec<Finding>)
    ensures
        finding_views(r@) == role_notes(*role, start@),
{
    let mut out: Vec<Finding> = Vec::new();
    if let Some(v) = role {
        let mut detail = concat3(start, ": role=", repr_enum("CompRole", v.as_str()).as_str());
        detail.append(" (HCDF-only metadata; no URDF home)");
        note_if(&mut out, true, Tier::OutOfProfile, "P_COMP_ROLE", detail);
    }
    assert(finding_views(out@) =~= role_notes(*role, start@));
    out
}

/// The findings on the elements of a component that URDF has no place for.
pub open spec fn comp_dropped_notes(comp: Comp, ctx: Seq<char>) -> Seq<FindingView> {
    Seq::empty() + dropped_notes("P_COMP_SENSOR"@, ctx, comp.sensor@.len(), "sensors"@)
        + dropped_notes("P_COMP_MOTOR"@, ctx, comp.motor@.len(), "motors"@)
        + dropped_notes("P_COMP_HMI"@, ctx, comp.hmi@.len(), "HMI elements"@)
        + dropped_notes("P_COMP_DYNAMIC_SURFACE"@, ctx, comp.dynamic_surface@.len(), "dynamic surfaces"@)
        + dropped_notes("P_COMP_POWER_SOURCE"@, ctx, comp.power_source@.len(), "power sources"@)
        + dropped_notes("P_COMP_PORT"@, ctx, comp.port@.len(), "ports"@)
        + dropped_notes("P_COMP_ANTENNA"@, ctx, comp.antenna@.len(), "antennas"@)
        + dropped_notes("P_COMP_FRAME"@, ctx, comp.frame@.len(), "coordinate frames"@)
        + dropped_notes("P_COMP_EXTENSION"@, ctx, comp.extension@.len(), "vendor extensions"@)
        + metadata_notes("P_COMP_STRUCT_TYPE"@, ctx, "struct-type"@, comp.struct_type)
        + metadata_notes("P_COMP_IP_RATING"@, ctx, "ip-rating"@, comp.ip_rating)
        + role_notes(comp.role, ctx)
        + metadata_notes("P_COMP_HWID"@, ctx, "hwid"@, comp.hwid)
}

fn comp_dropped(comp: &Comp, ctx: &str) -> (r: Vec<Finding>)
    ensures
        finding_views(r@) == comp_dropped_notes(*comp, ctx@),
{
    let mut out: Vec<Finding> = Vec::new();
    assert(finding_views(out@) =~= Seq::empty());
    add_all(
        &mut out,
        dropped_findings("P_COMP_SENSOR", ctx, comp.sensor.len() as u64, "sensors"),
    );
    add_all(
        &mut out,
        dropped_findings("P_COMP_MOTOR", ctx, comp.motor.len() as u64, "motors"),
    );
    add_all(
        &mut out,
        dropped_findings("P_COMP_HMI", ctx, comp.hmi.len() as u64, "HMI elements"),
    );
    add_all(
        &mut out,
        dropped_findings("P_COMP_DYNAMIC_SURFACE", ctx, comp.dynamic_surface.len() as u64, "dynamic surfaces"),
    );
    add_all(
        &mut out,
        dropped_findings("P_COMP_POWER_SOURCE", ctx, comp.power_source.len() as u64, "power sources"),
    );
    add_all(
        &mut out,
        dropped_findings("P_COMP_PORT", ctx, comp.port.len() as u64, "ports"),
    );
    add_all(
        &mut out,
        dropped_findings("P_COMP_ANTENNA", ctx, comp.antenna.len() as u64, "antennas"),
    );
    add_all(
        &mut out,
        dropped_findings("P_COMP_FRAME", ctx, comp.frame.len() as u64, "coordinate frames"),
    );
    add_all(
        &mut out,
        dropped_findings("P_COMP_EXTENSION", ctx, comp.extension.len() as u64, "vendor extensions"),
    );
    add_all(&mut out, metadata_findings("P_COMP_STRUCT_TYPE", ctx, "struct-type", &comp.struct_type));
    add_all(&mut out, metadata_findings("P_COMP_IP_RATING", ctx, "ip-rating", &comp.ip_rating));
    add_all(&mut out, role_findings(&comp.role, ctx));
    add_all(&mut out, metadata_findings("P_COMP_HWID", ctx, "hwid", &comp.hwid));
    out
}

/// The findings on a component.
pub open spec fn comp_notes(comp: Comp) -> Seq<FindingView> {
    let ctx = "comp "@ + quote::quoted(comp.name@);
    inertia_notes(comp.inertial, ctx) + visuals_notes(comp.visual@, ctx, comp.visual@.len())
        + collisions_notes(comp.collision@, ctx, comp.collision@.len()) + comp_dropped_notes(
        comp,
        ctx,
    )
}

fn comp_findings(comp: &Comp) -> (r: Vec<Finding>)
    ensures
        finding_views(r@) == comp_notes(*comp),
{
    let ctx = concat2("comp ", repr_str(comp.name.as_str()).as_str());
    let mut out = inertia_findings(&comp.inertial, ctx.as_str());
    add_all(&mut out, visuals_findings(&comp.visual, ctx.as_str()));
    add_all(&mut out, collisions_findings(&comp.collision, ctx.as_str()));
    add_all(&mut out, comp_dropped(comp, ctx.as_str()));
    out
}

/// The findings on the first `n` components.
pub open spec fn comps_notes(list: Seq<Comp>, n: nat) -> Seq<FindingView>
    decreases n,
{
    if n == 0 || n > list.len() {
        Seq::empty()
    } else {
        comps_notes(list, (n - 1) as nat) + comp_notes(list[n - 1])
    }
}

fn comps_findings(list: &Vec<Comp>) -> (r: Vec<Finding>)
    ensures
        finding_views(r@) == comps_notes(list@, list@.len()),
{
    let mut out: Vec<Finding> = Vec::new();
    let mut i: usize = 0;
    assert(finding_views(out@) =~= Seq::empty());
    while i < list.len()
        invariant
            i <= list@.len(),
            finding_views(out@) == comps_notes(list@, i as nat),
        decreases list@.len() - i,
    {
        add_all(&mut out, comp_findings(&list[i]));
        i += 1;
    }
    out
}

// Counts.

/// A count as far as a machine word holds it.
pub open spec fn capped(n: nat) -> nat {
    if n < u64::MAX {
        n
    } else {
        u64::MAX as nat
    }
}

/// The sum of two counts.
fn sum(a: u64, b: u64) -> (r: u64)
    ensures
        forall|m: nat, n: nat| a == capped(m) && b == capped(n) ==> r == #[trigger] capped(m + n),
{
    if a > u64::MAX - b {
        u64::MAX
    } else {
        a + b
    }
}

/// One for a pose that holds a quaternion.
pub open spec fn quat_pose(pose: Option<Pose>) -> nat {
    if pose is Some && pose->0.quat is Some {
        1
    } else {
        0
    }
}

fn pose_quat(pose: &Option<Pose>) -> (r: u64)
    ensures
        r == capped(quat_pose(*pose)),
{
    match pose {
        Some(p) => if p.quat.is_some() {
            1
        } else {
            0
        },
        None => 0,
    }
}

/// How many of the first `n` poses of a list hold a quaternion.
pub open spec fn quat_count(poses: spec_fn(int) -> Option<Pose>, n: nat) -> nat
    decreases n,
{
    if n == 0 {
        0
    } else {
        quat_count(poses, (n - 1) as nat) + quat_pose(poses(n - 1))
    }
}

/// The pose of the inertia of a component.
pub open spec fn inertia_pose(comp: Comp) -> Option<Pose> {
    match comp.inertial {
        Some(ip) => ip.inertia_origin,
        None => None,
    }
}

/// How many poses of a component hold a quaternion.
pub open spec fn comp_quats(comp: Comp) -> nat {
    quat_pose(inertia_pose(comp)) + quat_count(|i: int| comp.visual@[i].pose, comp.visual@.len()) + quat_count(
        |i: int| comp.collision@[i].pose,
        comp.collision@.len(),
    )
}

fn count_comp_quats(comp: &Comp) -> (r: u64)
    ensures
        r == capped(comp_quats(*comp)),
{
    let own: u64 = match &comp.inertial {
        Some(ip) => pose_quat(&ip.inertia_origin),
        None => 0,
    };
    let ghost visuals = |i: int| comp.visual@[i].pose;
    let ghost collisions = |i: int| comp.collision@[i].pose;
    let mut in_visuals: u64 = 0;
    let mut i: usize = 0;
    while i < comp.visual.len()
        invariant
            i <= comp.visual@.len(),
            visuals == (|i: int| comp.visual@[i].pose),
            in_visuals == capped(quat_count(visuals, i as nat)),
        decreases comp.visual@.len() - i,
    {
        in_visuals = sum(in_visuals, pose_quat(&comp.visual[i].pose));
        assert(in_visuals == capped(
            quat_count(visuals, i as nat) + quat_pose(comp.visual@[i as int].pose),
        ));
        i += 1;
    }
    let mut in_collisions: u64 = 0;
    let mut k: usize = 0;
    while k < comp.collision.len()
        invariant
            k <= comp.collision@.len(),
            collisions == (|i: int| comp.collision@[i].pose),
            in_collisions == capped(quat_count(collisions, k as nat)),
        decreases comp.collision@.len() - k,
    {
        in_collisions = sum(in_collisions, pose_quat(&comp.collision[k].pose));
        assert(in_collisions == capped(
            quat_count(collisions, k as nat) + quat_pose(comp.collision@[k as int].pose),
        ));
        k += 1;
    }
    let ghost first = quat_pose(inertia_pose(*comp));
    let some = sum(own, in_visuals);
    assert(some == capped(first + quat_count(visuals, comp.visual@.len())));
    sum(some, in_collisions)
}

/// How many poses of the first `n` components hold a quaternion.
pub open spec fn comps_quats(list: Seq<Comp>, n: nat) -> nat
    decreases n,
{
    if n == 0 || n > list.len() {
        0
    } else {
        comps_quats(list, (n - 1) as nat) + comp_quats(list[n - 1])
    }
}

/// How many poses of a document hold a quaternion.
pub open spec fn quat_poses(doc: Hcdf) -> nat {
    quat_count(|i: int| doc.joint@[i].origin, doc.joint@.len()) + comps_quats(
        doc.comp@,
        doc.comp@.len(),
    )
}

fn count_quat_poses(doc: &Hcdf) -> (r: u64)
    ensures
        r == capped(quat_poses(*doc)),
{
    let ghost origins = |i: int| doc.joint@[i].origin;
    let mut in_joints: u64 = 0;
    let mut i: usize = 0;
    while i < doc.joint.len()
        invariant
            i <= doc.joint@.len(),
            origins == (|i: int| doc.joint@[i].origin),
            in_joints == capped(quat_count(origins, i as nat)),
        decreases doc.joint@.len() - i,
    {
        in_joints = sum(in_joints, pose_quat(&doc.joint[i].origin));
        assert(in_joints == capped(
            quat_count(origins, i as nat) + quat_pose(doc.joint@[i as int].origin),
        ));
        i += 1;
    }
    let mut in_comps: u64 = 0;
    let mut k: usize = 0;
    while k < doc.comp.len()
        invariant
            k <= doc.comp@.len(),
            in_comps == capped(comps_quats(doc.comp@, k as nat)),
        decreases doc.comp@.len() - k,
    {
        in_comps = sum(in_comps, count_comp_quats(&doc.comp[k]));
        assert(in_comps == capped(
            comps_quats(doc.comp@, k as nat) + comp_quats(doc.comp@[k as int]),
        ));
        k += 1;
    }
    sum(in_joints, in_comps)
}

// The document.

/// How many networks a document has.
pub open spec fn network_count(doc: Hcdf) -> nat {
    doc.link@.len() + doc.bus@.len() + doc.chain@.len() + doc.star@.len() + doc.ring@.len()
        + doc.mesh@.len() + doc.tree@.len()
}

fn count_networks(doc: &Hcdf) -> (r: u64)
    ensures
        r == capped(network_count(*doc)),
{
    let n2 = sum(doc.link.len() as u64, doc.bus.len() as u64);
    assert(n2 == capped(doc.link@.len() + doc.bus@.len()));
    let n3 = sum(n2, doc.chain.len() as u64);
    assert(n3 == capped(doc.link@.len() + doc.bus@.len() + doc.chain@.len()));
    let n4 = sum(n3, doc.star.len() as u64);
    assert(n4 == capped(doc.link@.len() + doc.bus@.len() + doc.chain@.len() + doc.star@.len()));
    let n5 = sum(n4, doc.ring.len() as u64);
    assert(n5 == capped(
        doc.link@.len() + doc.bus@.len() + doc.chain@.len() + doc.star@.len() + doc.ring@.len(),
    ));
    let n6 = sum(n5, doc.mesh.len() as u64);
    assert(n6 == capped(
        doc.link@.len() + doc.bus@.len() + doc.chain@.len() + doc.star@.len() + doc.ring@.len()
            + doc.mesh@.len(),
    ));
    sum(n6, doc.tree.len() as u64)
}

/// The findings on the elements of a document that stand beside its components.
pub open spec fn top_notes(doc: Hcdf) -> Seq<FindingView> {
    Seq::empty() + dropped_notes("P_GROUP"@, "document"@, doc.group@.len(), "joint groups"@)
        + dropped_notes("P_STATE"@, "document"@, doc.state@.len(), "kinematic states"@)
        + dropped_notes(
        "P_NETWORK"@,
        "document"@,
        capped(network_count(doc)),
        "networks"@,
    ) + dropped_notes(
        "P_SELF_COLLISION_DISABLE"@,
        "document"@,
        if doc.self_collision_disable is Some {
            1
        } else {
            0
        },
        "self-collision-disable blocks"@,
    ) + note(
        doc.includes@.len() > 0,
        Tier::WithTransform,
        "P_INCLUDE"@,
        "document: "@ + text::decimal(doc.includes@.len())
            + " <include>(s); flatten with hcdf.io.flatten() before URDF export"@,
    ) + note(
        quat_poses(doc) > 0,
        Tier::WithTransform,
        "P_POSE_QUAT"@,
        text::decimal(capped(quat_poses(doc)))
            + " pose(s) use quat orientation; emitted as URDF rpy (rotation preserved exactly; URDF <origin> has no quaternion)"@,
    )
}

fn top_dropped(doc: &Hcdf) -> (r: Vec<Finding>)
    ensures
        finding_views(r@) == top_notes(*doc),
{
    let mut out: Vec<Finding> = Vec::new();
    assert(finding_views(out@) =~= Seq::empty());
    add_all(
        &mut out,
        dropped_findings("P_GROUP", "document", doc.group.len() as u64, "joint groups"),
    );
    add_all(
        &mut out,
        dropped_findings("P_STATE", "document", doc.state.len() as u64, "kinematic states"),
    );
    add_all(&mut out, dropped_findings("P_NETWORK", "document", count_networks(doc), "networks"));
    let blocks: u64 = if doc.self_collision_disable.is_some() { 1 } else { 0 };
    add_all(
        &mut out,
        dropped_findings(
            "P_SELF_COLLISION_DISABLE",
            "document",
            blocks,
            "self-collision-disable blocks",
        ),
    );
    note_if(
        &mut out,
        doc.includes.len() > 0,
        Tier::WithTransform,
        "P_INCLUDE",
        concat3(
            "document: ",
            text::decimal_text(doc.includes.len() as u64).as_str(),
            " <include>(s); flatten with hcdf.io.flatten() before URDF export",
        ),
    );
    let quats = count_quat_poses(doc);
    note_if(
        &mut out,
        quats > 0,
        Tier::WithTransform,
        "P_POSE_QUAT",
        concat2(
            text::decimal_text(quats).as_str(),
            " pose(s) use quat orientation; emitted as URDF rpy (rotation preserved exactly; URDF <origin> has no quaternion)",
        ),
    );
    out
}

/// The findings on a document for which a validator found these issues.
pub open spec fn document_notes(doc: Hcdf, issues: Seq<Issue>) -> Seq<FindingView> {
    tree_notes(issues, issues.len()) + root_notes(doc) + frame_notes(doc) + joints_notes(
        doc.joint@,
        doc.joint@.len(),
    ) + comps_notes(doc.comp@, doc.comp@.len()) + top_notes(doc)
}

/// The worst tier of the first `n` findings; the best tier where there is none.
pub open spec fn worst_tier(list: Seq<FindingView>, n: nat) -> Tier
    decreases n,
{
    if n == 0 || n > list.len() {
        Tier::Identity
    } else {
        let before = worst_tier(list, (n - 1) as nat);
        if list[n - 1].tier.rank() > before.rank() {
            list[n - 1].tier
        } else {
            before
        }
    }
}

/// The worst tier is the tier of some finding, or the best tier where there is none, and no finding is
/// at a worse one.
pub proof fn worst_tier_is_worst(list: Seq<FindingView>)
    ensures
        forall|i: int|
            0 <= i < list.len() ==> (#[trigger] list[i]).tier.rank() <= worst_tier(
                list,
                list.len(),
            ).rank(),
        worst_tier(list, list.len()) is Identity || exists|i: int|
            0 <= i < list.len() && (#[trigger] list[i]).tier == worst_tier(list, list.len()),
{
    worst_of_first(list, list.len());
}

proof fn worst_of_first(list: Seq<FindingView>, n: nat)
    requires
        n <= list.len(),
    ensures
        forall|i: int|
            0 <= i < n ==> (#[trigger] list[i]).tier.rank() <= worst_tier(list, n).rank(),
        worst_tier(list, n) is Identity || exists|i: int|
            0 <= i < n && (#[trigger] list[i]).tier == worst_tier(list, n),
    decreases n,
{
    if n > 0 {
        worst_of_first(list, (n - 1) as nat);
        assert(list[n - 1].tier == list[n - 1].tier);
    }
}

fn worst(list: &Vec<Finding>) -> (r: Tier)
    ensures
        r == worst_tier(finding_views(list@), list@.len()),
{
    let ghost views = finding_views(list@);
    let mut out = Tier::Identity;
    let mut i: usize = 0;
    while i < list.len()
        invariant
            i <= list@.len(),
            views == finding_views(list@),
            out == worst_tier(views, i as nat),
        decreases list@.len() - i,
    {
        assert(views[i as int].tier == list@[i as int].tier);
        let worse = match (list[i].tier, out) {
            (Tier::OutOfProfile, Tier::Identity) => true,
            (Tier::OutOfProfile, Tier::WithTransform) => true,
            (Tier::WithTransform, Tier::Identity) => true,
            _ => false,
        };
        if worse {
            out = list[i].tier;
        }
        i += 1;
    }
    out
}

/// Whether a manifest holds what an export gave, or the words of its failure.
pub open spec fn loss_reported(export: Result<LossManifest, String>, loss: LossManifest) -> bool {
    match export {
        Ok(given) => loss == given,
        Err(words) => loss.entries@.len() == 1 && loss.entries@[0].category@ == "export-error"@
            && loss.entries@[0].detail@ == "to_urdf failed: "@ + words@,
    }
}

/// Classifies a document. `issues` is what the validator found, and `export` what the export to URDF
/// lost, or the words of the error that stopped it.
pub fn check_profile(
    doc: &Hcdf,
    issues: Vec<Issue>,
    export: Result<LossManifest, String>,
) -> (r: ProfileReport)
    ensures
        finding_views(r.findings@) == document_notes(*doc, issues@),
        r.classification == worst_tier(
            document_notes(*doc, issues@),
            document_notes(*doc, issues@).len(),
        ),
        r.issues@ == issues@,
        loss_reported(export, r.loss),
{
    let mut findings = tree_findings(&issues);
    add_all(&mut findings, root_findings(doc));
    add_all(&mut findings, frame_findings(doc));
    add_all(&mut findings, joints_findings(&doc.joint));
    add_all(&mut findings, comps_findings(&doc.comp));
    add_all(&mut findings, top_dropped(doc));
    assert(finding_views(findings@).len() == findings@.len());
    let classification = worst(&findings);
    let loss = match export {
        Ok(loss) => loss,
        Err(words) => {
            let mut loss = LossManifest::new();
            loss.add("export-error", concat2("to_urdf failed: ", words.as_str()));
            loss
        },
    };
    ProfileReport { classification, findings, loss, issues }
}

} // verus!
