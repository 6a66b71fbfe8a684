//! How many findings a document has on the types of its joints, and how the words of a text are
//! counted.
use vstd::prelude::*;
use crate::model::{Collision, Comp, Hcdf, Joint, Visual};
use crate::text;
use super::findings;
use super::findings::{FindingView, Issue};
use super::laws;
use super::reasons;

verus! {

// Types of joints.

/// Whether no finding of a list has a code of a joint: one whose third letter is a J.
pub open spec fn speaks_of_no_joint(list: Seq<FindingView>) -> bool {
    forall|i: int| 0 <= i < list.len() ==> (#[trigger] list[i]).code[2] != 'J'
}

proof fn neither_speaks_of_a_joint(a: Seq<FindingView>, b: Seq<FindingView>)
    requires
        speaks_of_no_joint(a),
        speaks_of_no_joint(b),
    ensures
        speaks_of_no_joint(a + b),
{
    assert forall|i: int| 0 <= i < (a + b).len() implies (#[trigger] (a + b)[i]).code[2] != 'J' by {
        if i < a.len() {
            assert((a + b)[i] == a[i]);
        } else {
            assert((a + b)[i] == b[i - a.len()]);
        }
    }
}

proof fn no_joint_no_type(list: Seq<FindingView>)
    requires
        speaks_of_no_joint(list),
    ensures
        reasons::count_code(list, "P_JOINT_TYPE"@) == 0,
    decreases list.len(),
{
    reveal(reasons::count_code);
    reveal_strlit("P_JOINT_TYPE");
    let on_type = |f: FindingView| f.code == "P_JOINT_TYPE"@;
    reveal(Seq::filter);
    if list.len() > 0 {
        let fewer = list.drop_last();
        assert forall|i: int| 0 <= i < fewer.len() implies (#[trigger] fewer[i]).code[2] != 'J' by {
            assert(fewer[i] == list[i]);
        }
        no_joint_no_type(fewer);
        assert("P_JOINT_TYPE"@[2] == 'J');
        assert(list.last().code[2] != 'J');
        assert(!on_type(list.last()));
        assert(list.filter(on_type) == fewer.filter(on_type));
    } else {
        assert(list.filter(on_type) =~= Seq::empty());
    }
}

proof fn trees_speak_of_no_joint(issues: Seq<Issue>, n: nat)
    ensures
        speaks_of_no_joint(findings::tree_notes(issues, n)),
    decreases n,
{
    reveal_strlit("P_NOT_A_TREE");
    if n > 0 && n <= issues.len() {
        trees_speak_of_no_joint(issues, (n - 1) as nat);
        neither_speaks_of_a_joint(
            findings::tree_notes(issues, (n - 1) as nat),
            findings::note(
                findings::breaks_the_tree(issues[n - 1]),
                findings::Tier::OutOfProfile,
                "P_NOT_A_TREE"@,
                issues[n - 1].code@ + ": "@ + issues[n - 1].message@,
            ),
        );
    }
}

proof fn roots_and_frames_speak_of_no_joint(doc: Hcdf)
    ensures
        speaks_of_no_joint(findings::root_notes(doc)),
        speaks_of_no_joint(findings::frame_notes(doc)),
{
    reveal_strlit("P_NO_ROOT");
    reveal_strlit("P_MULTI_ROOT");
    reveal_strlit("P_BODY_FRD");
    reveal_strlit("P_WORLD_NED");
}

proof fn visuals_speak_of_no_joint(list: Seq<Visual>, ctx: Seq<char>, n: nat)
    ensures
        speaks_of_no_joint(findings::visuals_notes(list, ctx, n)),
    decreases n,
{
    reveal_strlit("P_GLB_MODEL");
    reveal_strlit("P_GEOMETRY");
    reveal_strlit("P_VISUAL_NO_GEOMETRY");
    reveal_strlit("P_VISUAL_TOGGLE");
    if n > 0 && n <= list.len() {
        visuals_speak_of_no_joint(list, ctx, (n - 1) as nat);
        assert(speaks_of_no_joint(findings::visual_notes(list[n - 1], ctx)));
        neither_speaks_of_a_joint(
            findings::visuals_notes(list, ctx, (n - 1) as nat),
            findings::visual_notes(list[n - 1], ctx),
        );
    }
}

proof fn collisions_speak_of_no_joint(list: Seq<Collision>, ctx: Seq<char>, n: nat)
    ensures
        speaks_of_no_joint(findings::collisions_notes(list, ctx, n)),
    decreases n,
{
    reveal_strlit("P_GEOMETRY");
    reveal_strlit("P_COLLISION_NO_GEOMETRY");
    reveal_strlit("P_SURFACE");
    if n > 0 && n <= list.len() {
        collisions_speak_of_no_joint(list, ctx, (n - 1) as nat);
        assert(speaks_of_no_joint(findings::collision_notes(list[n - 1], ctx)));
        neither_speaks_of_a_joint(
            findings::collisions_notes(list, ctx, (n - 1) as nat),
            findings::collision_notes(list[n - 1], ctx),
        );
    }
}

proof fn extras_speak_of_no_joint(comp: Comp, ctx: Seq<char>)
    ensures
        speaks_of_no_joint(findings::comp_dropped_notes(comp, ctx)),
        speaks_of_no_joint(findings::inertia_notes(comp.inertial, ctx)),
{
    reveal_strlit("P_COMP_SENSOR");
    reveal_strlit("P_COMP_MOTOR");
    reveal_strlit("P_COMP_HMI");
    reveal_strlit("P_COMP_DYNAMIC_SURFACE");
    reveal_strlit("P_COMP_POWER_SOURCE");
    reveal_strlit("P_COMP_PORT");
    reveal_strlit("P_COMP_ANTENNA");
    reveal_strlit("P_COMP_FRAME");
    reveal_strlit("P_COMP_EXTENSION");
    reveal_strlit("P_COMP_STRUCT_TYPE");
    reveal_strlit("P_COMP_IP_RATING");
    reveal_strlit("P_COMP_ROLE");
    reveal_strlit("P_COMP_HWID");
    reveal_strlit("P_INERTIA_ARITY");
}

proof fn comps_speak_of_no_joint(list: Seq<Comp>, n: nat)
    ensures
        speaks_of_no_joint(findings::comps_notes(list, n)),
    decreases n,
{
    if n > 0 && n <= list.len() {
        comps_speak_of_no_joint(list, (n - 1) as nat);
        let comp = list[n - 1];
        let ctx = "comp "@ + crate::quote::quoted(comp.name@);
        let a = findings::inertia_notes(comp.inertial, ctx);
        let b = findings::visuals_notes(comp.visual@, ctx, comp.visual@.len());
        let c = findings::collisions_notes(comp.collision@, ctx, comp.collision@.len());
        let d = findings::comp_dropped_notes(comp, ctx);
        extras_speak_of_no_joint(comp, ctx);
        visuals_speak_of_no_joint(comp.visual@, ctx, comp.visual@.len());
        collisions_speak_of_no_joint(comp.collision@, ctx, comp.collision@.len());
        neither_speaks_of_a_joint(a, b);
        neither_speaks_of_a_joint(a + b, c);
        neither_speaks_of_a_joint(a + b + c, d);
        neither_speaks_of_a_joint(
            findings::comps_notes(list, (n - 1) as nat),
            findings::comp_notes(comp),
        );
    }
}

proof fn the_rest_speaks_of_no_joint(doc: Hcdf)
    ensures
        speaks_of_no_joint(findings::top_notes(doc)),
{
    reveal_strlit("P_GROUP");
    reveal_strlit("P_STATE");
    reveal_strlit("P_NETWORK");
    reveal_strlit("P_SELF_COLLISION_DISABLE");
    reveal_strlit("P_INCLUDE");
    reveal_strlit("P_POSE_QUAT");
}

/// A joint has one finding with the code P_JOINT_TYPE where its type is none of revolute, continuous,
/// prismatic, fixed, free and planar, and no such finding otherwise.
pub proof fn one_finding_for_a_foreign_type(j: Joint)
    ensures
        reasons::count_code(findings::joint_notes(j), "P_JOINT_TYPE"@) == (if laws::has_foreign_type(j) {
            1nat
        } else {
            0nat
        }),
{
    reveal_strlit("P_JOINT_TYPE");
    reveal_strlit("P_LOOP");
    reveal_strlit("P_AXIS2");
    reveal_strlit("P_THREAD_PITCH");
    reveal_strlit("P_LIMIT_FIELD");
    reveal_strlit("P_DYNAMICS_SPRING");
    reveal_strlit("P_JOINT_EXTENSION");
    assert("P_JOINT_TYPE"@.len() == 12);
    assert("P_JOINT_TYPE"@[2] == 'J');
    assert("P_LOOP"@.len() == 6);
    assert("P_AXIS2"@.len() == 7);
    assert("P_THREAD_PITCH"@.len() == 14);
    assert("P_LIMIT_FIELD"@.len() == 13);
    assert("P_DYNAMICS_SPRING"@.len() == 17);
    assert("P_JOINT_EXTENSION"@.len() == 17);
    reasons::joint_counted(j, "P_JOINT_TYPE"@);
}

proof fn types_counted(joints: Seq<Joint>, n: nat)
    requires
        n <= joints.len(),
    ensures
        reasons::count_code(findings::joints_notes(joints, n), "P_JOINT_TYPE"@) == joints.take(
            n as int,
        ).filter(|j: Joint| laws::has_foreign_type(j)).len(),
    decreases n,
{
    let foreign = |j: Joint| laws::has_foreign_type(j);
    reveal(Seq::filter);
    if n == 0 {
        reasons::count_of_none("P_JOINT_TYPE"@);
        assert(joints.take(0).filter(foreign) =~= Seq::empty());
    } else {
        let before = (n - 1) as nat;
        types_counted(joints, before);
        one_finding_for_a_foreign_type(joints[n - 1]);
        reasons::count_of_both(
            findings::joints_notes(joints, before),
            findings::joint_notes(joints[n - 1]),
            "P_JOINT_TYPE"@,
        );
        assert(joints.take(n as int).drop_last() =~= joints.take(n - 1));
        assert(joints.take(n as int).last() == joints[n - 1]);
    }
}

/// The findings of a document with the code P_JOINT_TYPE are as many as its joints whose type is none
/// of revolute, continuous, prismatic, fixed, free and planar.
pub proof fn as_many_findings_as_foreign_types(doc: Hcdf, issues: Seq<Issue>)
    ensures
        reasons::count_code(findings::document_notes(doc, issues), "P_JOINT_TYPE"@)
            == doc.joint@.filter(|j: Joint| laws::has_foreign_type(j)).len(),
{
    let code = "P_JOINT_TYPE"@;
    let trees = findings::tree_notes(issues, issues.len());
    let roots = findings::root_notes(doc);
    let frames = findings::frame_notes(doc);
    let joints = findings::joints_notes(doc.joint@, doc.joint@.len());
    let comps = findings::comps_notes(doc.comp@, doc.comp@.len());
    let top = findings::top_notes(doc);
    trees_speak_of_no_joint(issues, issues.len());
    roots_and_frames_speak_of_no_joint(doc);
    comps_speak_of_no_joint(doc.comp@, doc.comp@.len());
    the_rest_speaks_of_no_joint(doc);
    no_joint_no_type(trees);
    no_joint_no_type(roots);
    no_joint_no_type(frames);
    no_joint_no_type(comps);
    no_joint_no_type(top);
    types_counted(doc.joint@, doc.joint@.len());
    assert(doc.joint@.take(doc.joint@.len() as int) =~= doc.joint@);
    reasons::count_of_both(trees, roots, code);
    reasons::count_of_both(trees + roots, frames, code);
    reasons::count_of_both(trees + roots + frames, joints, code);
    reasons::count_of_both(trees + roots + frames + joints, comps, code);
    reasons::count_of_both(trees + roots + frames + joints + comps, top, code);
}

// Words.

/// A text that is white space throughout has no words.
pub proof fn blanks_are_no_words(text: Seq<char>)
    requires
        forall|i: int| 0 <= i < text.len() ==> text::is_whitespace(#[trigger] text[i]),
    ensures
        findings::word_count(text) == 0,
    decreases text.len(),
{
    if text.len() > 0 {
        blanks_are_no_words(text.drop_last());
    }
}

/// A text without white space is one word, whatever its length.
pub proof fn a_text_without_blanks_is_one_word(text: Seq<char>)
    requires
        text.len() > 0,
        forall|i: int| 0 <= i < text.len() ==> !text::is_whitespace(#[trigger] text[i]),
    ensures
        findings::word_count(text) == 1,
    decreases text.len(),
{
    reveal_with_fuel(findings::word_count, 2);
    if text.len() > 1 {
        let shorter = text.drop_last();
        assert(shorter.len() > 0);
        assert forall|i: int| 0 <= i < shorter.len() implies !text::is_whitespace(
            #[trigger] shorter[i],
        ) by {
            assert(shorter[i] == text[i]);
        }
        a_text_without_blanks_is_one_word(shorter);
        assert(!text::is_whitespace(text[text.len() - 2]));
    } else {
        assert(text.drop_last() =~= Seq::empty());
        assert(!text::is_whitespace(text[0]));
    }
}

/// White space between two texts parts their words: the words of the whole are those of the two.
pub proof fn words_on_both_sides(a: Seq<char>, blank: char, b: Seq<char>)
    requires
        text::is_whitespace(blank),
    ensures
        findings::word_count(a + seq![blank] + b) == findings::word_count(a) + findings::word_count(b),
    decreases b.len(),
{
    let whole = a + seq![blank] + b;
    if b.len() == 0 {
        assert(whole =~= a.push(blank));
        assert(whole.drop_last() =~= a);
        assert(whole.last() == blank);
    } else {
        words_on_both_sides(a, blank, b.drop_last());
        assert(whole.drop_last() =~= a + seq![blank] + b.drop_last());
        assert(whole.last() == b.last());
        if b.len() == 1 {
            assert(whole[whole.len() - 2] == blank);
        } else {
            assert(whole[whole.len() - 2] == b[b.len() - 2]);
        }
    }
}

} // verus!
