//! Each finding has one reason, and each reason one finding.
use vstd::prelude::*;
use crate::model::Joint;
use crate::quote;
use super::findings;
use super::findings::{FindingView, Tier};
use super::laws;

verus! {

/// One where something holds, and none where it does not.
pub open spec fn one_where(holds: bool) -> nat {
    if holds {
        1
    } else {
        0
    }
}

/// How many findings of a list have a code.
#[verifier::opaque]
pub open spec fn count_code(list: Seq<FindingView>, code: Seq<char>) -> nat {
    list.filter(|f: FindingView| f.code == code).len()
}

/// Whether a finding with this code and these words, that content is dropped, is in a list.
pub open spec fn tells_of_loss(list: Seq<FindingView>, code: Seq<char>, detail: Seq<char>) -> bool {
    list.contains(FindingView { tier: Tier::OutOfProfile, code, detail })
}

/// Two lists together have the findings of both.
pub proof fn count_of_both(a: Seq<FindingView>, b: Seq<FindingView>, code: Seq<char>)
    ensures
        count_code(a + b, code) == count_code(a, code) + count_code(b, code),
        (a + b).len() == a.len() + b.len(),
{
    reveal(count_code);
    let has = |f: FindingView| f.code == code;
    Seq::filter_distributes_over_add(a, b, has);
}

proof fn kept_in_front(a: Seq<FindingView>, b: Seq<FindingView>, f: FindingView)
    requires
        a.contains(f),
    ensures
        (a + b).contains(f),
{
    let i = a.index_of(f);
    assert((a + b)[i] == f);
}

proof fn kept_behind(a: Seq<FindingView>, b: Seq<FindingView>, f: FindingView)
    requires
        b.contains(f),
    ensures
        (a + b).contains(f),
{
    let i = b.index_of(f);
    assert((a + b)[a.len() + i] == f);
}

proof fn count_of_one(holds: bool, tier: Tier, code: Seq<char>, detail: Seq<char>, asked: Seq<char>)
    ensures
        findings::note(holds, tier, code, detail).len() == one_where(holds),
        count_code(findings::note(holds, tier, code, detail), asked) == one_where(
            holds && code == asked,
        ),
{
    let has = |f: FindingView| f.code == asked;
    let one = findings::note(holds, tier, code, detail);
    reveal(count_code);
    reveal(Seq::filter);
    if holds {
        assert(one[0] == FindingView { tier, code, detail });
        assert(one.drop_last() =~= Seq::empty());
        assert(one.drop_last().filter(has) =~= Seq::empty());
        assert(one.filter(has).len() == one_where(code == asked));
    } else {
        assert(one.filter(has) =~= Seq::empty());
    }
}

/// The findings of the first `n` lists, one list after the other.
pub open spec fn all_of(parts: Seq<Seq<FindingView>>, n: nat) -> Seq<FindingView>
    decreases n,
{
    if n == 0 || n > parts.len() {
        Seq::empty()
    } else {
        all_of(parts, (n - 1) as nat) + parts[n - 1]
    }
}

/// How many findings of the first `n` lists have a code.
pub open spec fn count_in(parts: Seq<Seq<FindingView>>, code: Seq<char>, n: nat) -> nat
    decreases n,
{
    if n == 0 || n > parts.len() {
        0
    } else {
        count_in(parts, code, (n - 1) as nat) + count_code(parts[n - 1], code)
    }
}

/// How many findings the first `n` lists have.
pub open spec fn length_of(parts: Seq<Seq<FindingView>>, n: nat) -> nat
    decreases n,
{
    if n == 0 || n > parts.len() {
        0
    } else {
        length_of(parts, (n - 1) as nat) + parts[n - 1].len()
    }
}

/// No finding has no code.
pub proof fn count_of_none(code: Seq<char>)
    ensures
        count_code(Seq::empty(), code) == 0,
{
    reveal(count_code);
    reveal(Seq::filter);
}

proof fn counted_in_all(parts: Seq<Seq<FindingView>>, code: Seq<char>, n: nat)
    requires
        n <= parts.len(),
    ensures
        count_code(all_of(parts, n), code) == count_in(parts, code, n),
        all_of(parts, n).len() == length_of(parts, n),
    decreases n,
{
    if n == 0 {
        count_of_none(code);
    } else {
        counted_in_all(parts, code, (n - 1) as nat);
        count_of_both(all_of(parts, (n - 1) as nat), parts[n - 1], code);
    }
}

proof fn found_in_all(parts: Seq<Seq<FindingView>>, at: int, f: FindingView, n: nat)
    requires
        0 <= at < n <= parts.len(),
        parts[at].contains(f),
    ensures
        all_of(parts, n).contains(f),
    decreases n,
{
    if at == n - 1 {
        kept_behind(all_of(parts, (n - 1) as nat), parts[n - 1], f);
    } else {
        found_in_all(parts, at, f, (n - 1) as nat);
        kept_in_front(all_of(parts, (n - 1) as nat), parts[n - 1], f);
    }
}

proof fn sum_of_ten(parts: Seq<Seq<FindingView>>, code: Seq<char>)
    requires
        parts.len() == 10,
    ensures
        count_in(parts, code, 10) == count_code(parts[0], code) + count_code(parts[1], code)
            + count_code(parts[2], code) + count_code(parts[3], code) + count_code(parts[4], code)
            + count_code(parts[5], code) + count_code(parts[6], code) + count_code(parts[7], code)
            + count_code(parts[8], code) + count_code(parts[9], code),
        length_of(parts, 10) == parts[0].len() + parts[1].len() + parts[2].len() + parts[3].len()
            + parts[4].len() + parts[5].len() + parts[6].len() + parts[7].len() + parts[8].len()
            + parts[9].len(),
{
    reveal_with_fuel(count_in, 11);
    reveal_with_fuel(length_of, 11);
}

// Joints.

/// How many things a joint holds that URDF has no place for.
pub open spec fn joint_reasons(j: Joint) -> nat {
    one_where(j.loop_ is Some)
        + one_where(laws::has_foreign_type(j))
        + one_where(j.axis2 is Some)
        + one_where(j.thread_pitch is Some)
        + one_where(j.limit is Some && j.limit->0.acceleration is Some)
        + one_where(j.limit is Some && j.limit->0.jerk is Some)
        + one_where(j.limit is Some && j.limit->0.deceleration is Some)
        + one_where(j.dynamics is Some && j.dynamics->0.spring_stiffness is Some)
        + one_where(j.dynamics is Some && j.dynamics->0.spring_reference is Some)
        + one_where(j.extension is Some)
}

/// What a report calls a joint.
pub open spec fn joint_name(j: Joint) -> Seq<char> {
    "joint "@ + quote::quoted_option(match j.name {
        Some(name) => Some(name@),
        None => None,
    })
}

/// The findings on a joint are as many as the things that it holds and URDF does not know, and each of
/// these has one, with its code and its words.
pub proof fn a_joint_is_found_out(j: Joint)
    ensures
        findings::joint_notes(j).len() == joint_reasons(j),
        j.loop_ is Some ==> tells_of_loss(
            findings::joint_notes(j),
            "P_LOOP"@,
            joint_name(j) + ": loop-closure (URDF is tree-only, cannot express a closed kinematic loop)"@,
        ),
        laws::has_foreign_type(j) ==> tells_of_loss(
            findings::joint_notes(j),
            "P_JOINT_TYPE"@,
            joint_name(j) + ": type "@ + quote::quoted(j.type_->0.literal()) + " has no URDF equivalent"@,
        ),
        j.axis2 is Some ==> tells_of_loss(
            findings::joint_notes(j),
            "P_AXIS2"@,
            joint_name(j) + ": <axis2> (URDF has a single axis)"@,
        ),
        j.thread_pitch is Some ==> tells_of_loss(
            findings::joint_notes(j),
            "P_THREAD_PITCH"@,
            joint_name(j) + ": thread_pitch (URDF has no screw joint)"@,
        ),
        j.limit is Some && j.limit->0.acceleration is Some ==> tells_of_loss(
            findings::joint_notes(j),
            "P_LIMIT_FIELD"@,
            joint_name(j) + ": limit/acceleration (URDF limit has only lower/upper/effort/velocity)"@,
        ),
        j.limit is Some && j.limit->0.jerk is Some ==> tells_of_loss(
            findings::joint_notes(j),
            "P_LIMIT_FIELD"@,
            joint_name(j) + ": limit/jerk (URDF limit has only lower/upper/effort/velocity)"@,
        ),
        j.limit is Some && j.limit->0.deceleration is Some ==> tells_of_loss(
            findings::joint_notes(j),
            "P_LIMIT_FIELD"@,
            joint_name(j) + ": limit/deceleration (URDF limit has only lower/upper/effort/velocity)"@,
        ),
        j.dynamics is Some && j.dynamics->0.spring_stiffness is Some ==> tells_of_loss(
            findings::joint_notes(j),
            "P_DYNAMICS_SPRING"@,
            joint_name(j) + ": dynamics/spring_stiffness (URDF dynamics has only damping/friction)"@,
        ),
        j.dynamics is Some && j.dynamics->0.spring_reference is Some ==> tells_of_loss(
            findings::joint_notes(j),
            "P_DYNAMICS_SPRING"@,
            joint_name(j) + ": dynamics/spring_reference (URDF dynamics has only damping/friction)"@,
        ),
        j.extension is Some ==> tells_of_loss(
            findings::joint_notes(j),
            "P_JOINT_EXTENSION"@,
            joint_name(j) + ": <extension> vendor data (no URDF home; joint extensions are not de-merged)"@,
        ),
{
    joint_is_its_parts(j);
    joint_parts_are(j);
    joint_counted(j, ""@);
    let parts = joint_parts(j);
    let out = Tier::OutOfProfile;
    let start = joint_name(j);
    if j.loop_ is Some {
        let f = FindingView { tier: out, code: "P_LOOP"@, detail: start + ": loop-closure (URDF is tree-only, cannot express a closed kinematic loop)"@ };
        assert(parts[0][0] == f);
        found_in_all(parts, 0, f, 10);
    }
    if laws::has_foreign_type(j) {
        let f = FindingView { tier: out, code: "P_JOINT_TYPE"@, detail: start + ": type "@ + quote::quoted(j.type_->0.literal()) + " has no URDF equivalent"@ };
        assert(parts[1][0] == f);
        found_in_all(parts, 1, f, 10);
    }
    if j.axis2 is Some {
        let f = FindingView { tier: out, code: "P_AXIS2"@, detail: start + ": <axis2> (URDF has a single axis)"@ };
        assert(parts[2][0] == f);
        found_in_all(parts, 2, f, 10);
    }
    if j.thread_pitch is Some {
        let f = FindingView { tier: out, code: "P_THREAD_PITCH"@, detail: start + ": thread_pitch (URDF has no screw joint)"@ };
        assert(parts[3][0] == f);
        found_in_all(parts, 3, f, 10);
    }
    if j.limit is Some && j.limit->0.acceleration is Some {
        let f = FindingView { tier: out, code: "P_LIMIT_FIELD"@, detail: start + ": limit/acceleration (URDF limit has only lower/upper/effort/velocity)"@ };
        assert(parts[4][0] == f);
        found_in_all(parts, 4, f, 10);
    }
    if j.limit is Some && j.limit->0.jerk is Some {
        let f = FindingView { tier: out, code: "P_LIMIT_FIELD"@, detail: start + ": limit/jerk (URDF limit has only lower/upper/effort/velocity)"@ };
        assert(parts[5][0] == f);
        found_in_all(parts, 5, f, 10);
    }
    if j.limit is Some && j.limit->0.deceleration is Some {
        let f = FindingView { tier: out, code: "P_LIMIT_FIELD"@, detail: start + ": limit/deceleration (URDF limit has only lower/upper/effort/velocity)"@ };
        assert(parts[6][0] == f);
        found_in_all(parts, 6, f, 10);
    }
    if j.dynamics is Some && j.dynamics->0.spring_stiffness is Some {
        let f = FindingView { tier: out, code: "P_DYNAMICS_SPRING"@, detail: start + ": dynamics/spring_stiffness (URDF dynamics has only damping/friction)"@ };
        assert(parts[7][0] == f);
        found_in_all(parts, 7, f, 10);
    }
    if j.dynamics is Some && j.dynamics->0.spring_reference is Some {
        let f = FindingView { tier: out, code: "P_DYNAMICS_SPRING"@, detail: start + ": dynamics/spring_reference (URDF dynamics has only damping/friction)"@ };
        assert(parts[8][0] == f);
        found_in_all(parts, 8, f, 10);
    }
    if j.extension is Some {
        let f = FindingView { tier: out, code: "P_JOINT_EXTENSION"@, detail: start + ": <extension> vendor data (no URDF home; joint extensions are not de-merged)"@ };
        assert(parts[9][0] == f);
        found_in_all(parts, 9, f, 10);
    }
}

/// What each thing that a joint may hold adds to its findings.
#[verifier::opaque]
spec fn joint_parts(j: Joint) -> Seq<Seq<FindingView>> {
    let out = Tier::OutOfProfile;
    let start = joint_name(j);
    seq![
        findings::note(j.loop_ is Some, out, "P_LOOP"@, start + ": loop-closure (URDF is tree-only, cannot express a closed kinematic loop)"@),
        findings::note(laws::has_foreign_type(j), out, "P_JOINT_TYPE"@, start + ": type "@ + quote::quoted(j.type_->0.literal()) + " has no URDF equivalent"@),
        findings::note(j.axis2 is Some, out, "P_AXIS2"@, start + ": <axis2> (URDF has a single axis)"@),
        findings::note(j.thread_pitch is Some, out, "P_THREAD_PITCH"@, start + ": thread_pitch (URDF has no screw joint)"@),
        findings::note(j.limit is Some && j.limit->0.acceleration is Some, out, "P_LIMIT_FIELD"@, start + ": limit/acceleration (URDF limit has only lower/upper/effort/velocity)"@),
        findings::note(j.limit is Some && j.limit->0.jerk is Some, out, "P_LIMIT_FIELD"@, start + ": limit/jerk (URDF limit has only lower/upper/effort/velocity)"@),
        findings::note(j.limit is Some && j.limit->0.deceleration is Some, out, "P_LIMIT_FIELD"@, start + ": limit/deceleration (URDF limit has only lower/upper/effort/velocity)"@),
        findings::note(j.dynamics is Some && j.dynamics->0.spring_stiffness is Some, out, "P_DYNAMICS_SPRING"@, start + ": dynamics/spring_stiffness (URDF dynamics has only damping/friction)"@),
        findings::note(j.dynamics is Some && j.dynamics->0.spring_reference is Some, out, "P_DYNAMICS_SPRING"@, start + ": dynamics/spring_reference (URDF dynamics has only damping/friction)"@),
        findings::note(j.extension is Some, out, "P_JOINT_EXTENSION"@, start + ": <extension> vendor data (no URDF home; joint extensions are not de-merged)"@),
    ]
}

proof fn joint_parts_are(j: Joint)
    ensures
        joint_parts(j).len() == 10,
        joint_parts(j)[0] == findings::note(j.loop_ is Some, Tier::OutOfProfile, "P_LOOP"@, joint_name(j) + ": loop-closure (URDF is tree-only, cannot express a closed kinematic loop)"@),
        joint_parts(j)[1] == findings::note(laws::has_foreign_type(j), Tier::OutOfProfile, "P_JOINT_TYPE"@, joint_name(j) + ": type "@ + quote::quoted(j.type_->0.literal()) + " has no URDF equivalent"@),
        joint_parts(j)[2] == findings::note(j.axis2 is Some, Tier::OutOfProfile, "P_AXIS2"@, joint_name(j) + ": <axis2> (URDF has a single axis)"@),
        joint_parts(j)[3] == findings::note(j.thread_pitch is Some, Tier::OutOfProfile, "P_THREAD_PITCH"@, joint_name(j) + ": thread_pitch (URDF has no screw joint)"@),
        joint_parts(j)[4] == findings::note(j.limit is Some && j.limit->0.acceleration is Some, Tier::OutOfProfile, "P_LIMIT_FIELD"@, joint_name(j) + ": limit/acceleration (URDF limit has only lower/upper/effort/velocity)"@),
        joint_parts(j)[5] == findings::note(j.limit is Some && j.limit->0.jerk is Some, Tier::OutOfProfile, "P_LIMIT_FIELD"@, joint_name(j) + ": limit/jerk (URDF limit has only lower/upper/effort/velocity)"@),
        joint_parts(j)[6] == findings::note(j.limit is Some && j.limit->0.deceleration is Some, Tier::OutOfProfile, "P_LIMIT_FIELD"@, joint_name(j) + ": limit/deceleration (URDF limit has only lower/upper/effort/velocity)"@),
        joint_parts(j)[7] == findings::note(j.dynamics is Some && j.dynamics->0.spring_stiffness is Some, Tier::OutOfProfile, "P_DYNAMICS_SPRING"@, joint_name(j) + ": dynamics/spring_stiffness (URDF dynamics has only damping/friction)"@),
        joint_parts(j)[8] == findings::note(j.dynamics is Some && j.dynamics->0.spring_reference is Some, Tier::OutOfProfile, "P_DYNAMICS_SPRING"@, joint_name(j) + ": dynamics/spring_reference (URDF dynamics has only damping/friction)"@),
        joint_parts(j)[9] == findings::note(j.extension is Some, Tier::OutOfProfile, "P_JOINT_EXTENSION"@, joint_name(j) + ": <extension> vendor data (no URDF home; joint extensions are not de-merged)"@),
{
    reveal(joint_parts);
}

proof fn joint_is_its_parts(j: Joint)
    ensures
        findings::joint_notes(j) == all_of(joint_parts(j), 10),
        joint_parts(j).len() == 10,
{
    joint_parts_are(j);
    let parts = joint_parts(j);
    let start = joint_name(j);
    assert(start == "joint "@ + quote::quoted_option(findings::option_view(j.name)));
    if let Some(jt) = j.type_ {
        laws::shared_types_are_those_of_urdf(jt);
    }
    assert(findings::type_notes(j.type_, start) =~= parts[1]);
    reveal_with_fuel(all_of, 11);
}

/// The findings on a joint are as many as its reasons, and those with a code as many as the reasons that
/// have that code.
pub proof fn joint_counted(j: Joint, asked: Seq<char>)
    ensures
        findings::joint_notes(j).len() == joint_reasons(j),
        count_code(findings::joint_notes(j), asked) == joint_code_count(j, asked),
{
    joint_is_its_parts(j);
    counted_in_all(joint_parts(j), asked, 10);
    parts_counted(j, asked);
}

/// How many findings with a code a joint is due.
pub open spec fn joint_code_count(j: Joint, asked: Seq<char>) -> nat {
    one_where(j.loop_ is Some && "P_LOOP"@ == asked)
        + one_where(laws::has_foreign_type(j) && "P_JOINT_TYPE"@ == asked)
        + one_where(j.axis2 is Some && "P_AXIS2"@ == asked)
        + one_where(j.thread_pitch is Some && "P_THREAD_PITCH"@ == asked)
        + one_where(j.limit is Some && j.limit->0.acceleration is Some && "P_LIMIT_FIELD"@ == asked)
        + one_where(j.limit is Some && j.limit->0.jerk is Some && "P_LIMIT_FIELD"@ == asked)
        + one_where(j.limit is Some && j.limit->0.deceleration is Some && "P_LIMIT_FIELD"@ == asked)
        + one_where(j.dynamics is Some && j.dynamics->0.spring_stiffness is Some && "P_DYNAMICS_SPRING"@ == asked)
        + one_where(j.dynamics is Some && j.dynamics->0.spring_reference is Some && "P_DYNAMICS_SPRING"@ == asked)
        + one_where(j.extension is Some && "P_JOINT_EXTENSION"@ == asked)
}

proof fn loop_counted(j: Joint, asked: Seq<char>)
    ensures
        joint_parts(j)[0].len() == one_where(j.loop_ is Some),
        count_code(joint_parts(j)[0], asked) == one_where(j.loop_ is Some && "P_LOOP"@ == asked),
{
    joint_parts_are(j);
    count_of_one(
        j.loop_ is Some,
        Tier::OutOfProfile,
        "P_LOOP"@,
        joint_name(j) + ": loop-closure (URDF is tree-only, cannot express a closed kinematic loop)"@,
        asked,
    );
}

proof fn type_counted(j: Joint, asked: Seq<char>)
    ensures
        joint_parts(j)[1].len() == one_where(laws::has_foreign_type(j)),
        count_code(joint_parts(j)[1], asked) == one_where(laws::has_foreign_type(j) && "P_JOINT_TYPE"@ == asked),
{
    joint_parts_are(j);
    count_of_one(
        laws::has_foreign_type(j),
        Tier::OutOfProfile,
        "P_JOINT_TYPE"@,
        joint_name(j) + ": type "@ + quote::quoted(j.type_->0.literal()) + " has no URDF equivalent"@,
        asked,
    );
}

proof fn second_axis_counted(j: Joint, asked: Seq<char>)
    ensures
        joint_parts(j)[2].len() == one_where(j.axis2 is Some),
        count_code(joint_parts(j)[2], asked) == one_where(j.axis2 is Some && "P_AXIS2"@ == asked),
{
    joint_parts_are(j);
    count_of_one(
        j.axis2 is Some,
        Tier::OutOfProfile,
        "P_AXIS2"@,
        joint_name(j) + ": <axis2> (URDF has a single axis)"@,
        asked,
    );
}

proof fn pitch_counted(j: Joint, asked: Seq<char>)
    ensures
        joint_parts(j)[3].len() == one_where(j.thread_pitch is Some),
        count_code(joint_parts(j)[3], asked) == one_where(j.thread_pitch is Some && "P_THREAD_PITCH"@ == asked),
{
    joint_parts_are(j);
    count_of_one(
        j.thread_pitch is Some,
        Tier::OutOfProfile,
        "P_THREAD_PITCH"@,
        joint_name(j) + ": thread_pitch (URDF has no screw joint)"@,
        asked,
    );
}

proof fn acceleration_counted(j: Joint, asked: Seq<char>)
    ensures
        joint_parts(j)[4].len() == one_where(j.limit is Some && j.limit->0.acceleration is Some),
        count_code(joint_parts(j)[4], asked) == one_where(j.limit is Some && j.limit->0.acceleration is Some && "P_LIMIT_FIELD"@ == asked),
{
    joint_parts_are(j);
    count_of_one(
        j.limit is Some && j.limit->0.acceleration is Some,
        Tier::OutOfProfile,
        "P_LIMIT_FIELD"@,
        joint_name(j) + ": limit/acceleration (URDF limit has only lower/upper/effort/velocity)"@,
        asked,
    );
}

proof fn jerk_counted(j: Joint, asked: Seq<char>)
    ensures
        joint_parts(j)[5].len() == one_where(j.limit is Some && j.limit->0.jerk is Some),
        count_code(joint_parts(j)[5], asked) == one_where(j.limit is Some && j.limit->0.jerk is Some && "P_LIMIT_FIELD"@ == asked),
{
    joint_parts_are(j);
    count_of_one(
        j.limit is Some && j.limit->0.jerk is Some,
        Tier::OutOfProfile,
        "P_LIMIT_FIELD"@,
        joint_name(j) + ": limit/jerk (URDF limit has only lower/upper/effort/velocity)"@,
        asked,
    );
}

proof fn deceleration_counted(j: Joint, asked: Seq<char>)
    ensures
        joint_parts(j)[6].len() == one_where(j.limit is Some && j.limit->0.deceleration is Some),
        count_code(joint_parts(j)[6], asked) == one_where(j.limit is Some && j.limit->0.deceleration is Some && "P_LIMIT_FIELD"@ == asked),
{
    joint_parts_are(j);
    count_of_one(
        j.limit is Some && j.limit->0.deceleration is Some,
        Tier::OutOfProfile,
        "P_LIMIT_FIELD"@,
        joint_name(j) + ": limit/deceleration (URDF limit has only lower/upper/effort/velocity)"@,
        asked,
    );
}

proof fn stiffness_counted(j: Joint, asked: Seq<char>)
    ensures
        joint_parts(j)[7].len() == one_where(j.dynamics is Some && j.dynamics->0.spring_stiffness is Some),
        count_code(joint_parts(j)[7], asked) == one_where(j.dynamics is Some && j.dynamics->0.spring_stiffness is Some && "P_DYNAMICS_SPRING"@ == asked),
{
    joint_parts_are(j);
    count_of_one(
        j.dynamics is Some && j.dynamics->0.spring_stiffness is Some,
        Tier::OutOfProfile,
        "P_DYNAMICS_SPRING"@,
        joint_name(j) + ": dynamics/spring_stiffness (URDF dynamics has only damping/friction)"@,
        asked,
    );
}

proof fn reference_counted(j: Joint, asked: Seq<char>)
    ensures
        joint_parts(j)[8].len() == one_where(j.dynamics is Some && j.dynamics->0.spring_reference is Some),
        count_code(joint_parts(j)[8], asked) == one_where(j.dynamics is Some && j.dynamics->0.spring_reference is Some && "P_DYNAMICS_SPRING"@ == asked),
{
    joint_parts_are(j);
    count_of_one(
        j.dynamics is Some && j.dynamics->0.spring_reference is Some,
        Tier::OutOfProfile,
        "P_DYNAMICS_SPRING"@,
        joint_name(j) + ": dynamics/spring_reference (URDF dynamics has only damping/friction)"@,
        asked,
    );
}

proof fn extension_counted(j: Joint, asked: Seq<char>)
    ensures
        joint_parts(j)[9].len() == one_where(j.extension is Some),
        count_code(joint_parts(j)[9], asked) == one_where(j.extension is Some && "P_JOINT_EXTENSION"@ == asked),
{
    joint_parts_are(j);
    count_of_one(
        j.extension is Some,
        Tier::OutOfProfile,
        "P_JOINT_EXTENSION"@,
        joint_name(j) + ": <extension> vendor data (no URDF home; joint extensions are not de-merged)"@,
        asked,
    );
}

proof fn parts_counted(j: Joint, asked: Seq<char>)
    ensures
        length_of(joint_parts(j), 10) == joint_reasons(j),
        count_in(joint_parts(j), asked, 10) == joint_code_count(j, asked),
{
    assert(joint_parts(j).len() == 10) by {
        joint_parts_are(j);
    }
    sum_of_ten(joint_parts(j), asked);
    loop_counted(j, asked);
    type_counted(j, asked);
    second_axis_counted(j, asked);
    pitch_counted(j, asked);
    acceleration_counted(j, asked);
    jerk_counted(j, asked);
    deceleration_counted(j, asked);
    stiffness_counted(j, asked);
    reference_counted(j, asked);
    extension_counted(j, asked);
}

} // verus!
