//! What the tier of a document and its findings stand for.
use vstd::prelude::*;
use crate::model::enums::{BodyFrame, JointType, WorldFrame};
use crate::model::{Collision, Comp, Hcdf, Joint, Pose, Visual, VisualAppearance};
use crate::quote;
use crate::text;
use super::findings;
use super::findings::{FindingView, Issue, ProfileReport, Tier};

verus! {

// What stands in the way of an export.

/// Whether a joint is of a type that URDF has under this name, or under the name `floating`.
pub open spec fn is_shared_type(literal: Seq<char>) -> bool {
    literal == "revolute"@ || literal == "continuous"@ || literal == "prismatic"@ || literal
        == "fixed"@ || literal == "free"@ || literal == "planar"@
}

/// Whether a joint has a type that URDF does not have.
pub open spec fn has_foreign_type(j: Joint) -> bool {
    j.type_ is Some && !is_shared_type(j.type_->0.literal())
}

/// Whether a joint holds something that URDF has no place for.
pub open spec fn joint_is_foreign(j: Joint) -> bool {
    ||| j.loop_ is Some
    ||| has_foreign_type(j)
    ||| j.axis2 is Some
    ||| j.thread_pitch is Some
    ||| j.limit is Some && (j.limit->0.acceleration is Some || j.limit->0.jerk is Some
        || j.limit->0.deceleration is Some)
    ||| j.dynamics is Some && (j.dynamics->0.spring_stiffness is Some
        || j.dynamics->0.spring_reference is Some)
    ||| j.extension is Some
}

/// Whether a visual is a primitive that URDF cannot draw, or belongs to a group that is shown and
/// hidden.
pub open spec fn visual_is_foreign(v: Visual) -> bool {
    ||| v.toggle is Some
    ||| v.appearance matches VisualAppearance::Primitive { geometry, .. } && (geometry is None
        || geometry->0.capsule is Some || geometry->0.cone is Some || geometry->0.ellipsoid is Some
        || (geometry->0.box_ is None && geometry->0.cylinder is None && geometry->0.sphere is None))
}

/// Whether a collision has a shape that URDF cannot express, or a surface.
pub open spec fn collision_is_foreign(c: Collision) -> bool {
    ||| c.surface is Some
    ||| c.geometry is None
    ||| c.geometry->0.capsule is Some || c.geometry->0.cone is Some || c.geometry->0.ellipsoid
        is Some
    ||| c.geometry->0.box_ is None && c.geometry->0.cylinder is None && c.geometry->0.sphere is None
        && c.geometry->0.mesh is None
}

/// Whether the inertia of a component is no tuple of six.
pub open spec fn inertia_is_foreign(comp: Comp) -> bool {
    comp.inertial is Some && comp.inertial->0.inertia is Some && findings::word_count(
        comp.inertial->0.inertia->0@,
    ) != 6
}

/// Whether a component holds something that URDF has no place for.
pub open spec fn comp_is_foreign(comp: Comp) -> bool {
    ||| inertia_is_foreign(comp)
    ||| exists|i: int| 0 <= i < comp.visual@.len() && visual_is_foreign(#[trigger] comp.visual@[i])
    ||| exists|i: int|
        0 <= i < comp.collision@.len() && collision_is_foreign(#[trigger] comp.collision@[i])
    ||| comp.sensor@.len() + comp.motor@.len() + comp.hmi@.len() + comp.dynamic_surface@.len()
        + comp.power_source@.len() + comp.port@.len() + comp.antenna@.len() + comp.frame@.len()
        + comp.extension@.len() > 0
    ||| comp.struct_type is Some
    ||| comp.ip_rating is Some
    ||| comp.role is Some
    ||| comp.hwid is Some
}

/// Whether a component hangs from another by a joint that closes no loop.
pub open spec fn hangs(doc: Hcdf, at: int) -> bool {
    exists|k: int|
        0 <= k < doc.joint@.len() && (#[trigger] doc.joint@[k]).loop_ is None
            && doc.joint@[k].child is Some && doc.joint@[k].child->0.comp is Some
            && doc.joint@[k].child->0.comp->0@ == doc.comp@[at].name@
}

/// Whether the components of a document have no root, or two.
pub open spec fn is_no_tree(doc: Hcdf) -> bool {
    ||| doc.comp@.len() > 0 && forall|i: int| 0 <= i < doc.comp@.len() ==> #[trigger] hangs(doc, i)
    ||| exists|i: int, j: int|
        0 <= i < j < doc.comp@.len() && !(#[trigger] hangs(doc, i)) && !(#[trigger] hangs(doc, j))
}

/// Whether the validator found an error that says that the joints make no tree.
pub open spec fn is_tree_error(issue: Issue) -> bool {
    issue.level is Error && (issue.code@ == "E_MULTI_PARENT"@ || issue.code@ == "E_CYCLE"@
        || issue.code@ == "E_SELF_JOINT"@ || issue.code@ == "E_LOOP_REF"@)
}

/// Whether an export to URDF drops something of a document.
pub open spec fn drops_content(doc: Hcdf, issues: Seq<Issue>) -> bool {
    ||| exists|i: int| 0 <= i < issues.len() && is_tree_error(#[trigger] issues[i])
    ||| is_no_tree(doc)
    ||| exists|i: int| 0 <= i < doc.joint@.len() && joint_is_foreign(#[trigger] doc.joint@[i])
    ||| exists|i: int| 0 <= i < doc.comp@.len() && comp_is_foreign(#[trigger] doc.comp@[i])
    ||| doc.group@.len() + doc.state@.len() > 0
    ||| doc.link@.len() + doc.bus@.len() + doc.chain@.len() + doc.star@.len() + doc.ring@.len()
        + doc.mesh@.len() + doc.tree@.len() > 0
    ||| doc.self_collision_disable is Some
}

/// Whether a pose is given by a quaternion.
pub open spec fn is_turned(pose: Option<Pose>) -> bool {
    pose is Some && pose->0.quat is Some
}

/// Whether a component looks like a model, or has a pose that is given by a quaternion.
pub open spec fn comp_is_converted(comp: Comp) -> bool {
    ||| comp.inertial is Some && is_turned(comp.inertial->0.inertia_origin)
    ||| exists|i: int|
        0 <= i < comp.visual@.len() && ((#[trigger] comp.visual@[i]).appearance is Model
            || is_turned(comp.visual@[i].pose))
    ||| exists|i: int|
        0 <= i < comp.collision@.len() && is_turned((#[trigger] comp.collision@[i]).pose)
}

/// Whether an export to URDF keeps something only in another form.
pub open spec fn converts_content(doc: Hcdf) -> bool {
    ||| doc.body_frame == Some(BodyFrame::FRD)
    ||| doc.world_frame == Some(WorldFrame::NED)
    ||| doc.includes@.len() > 0
    ||| exists|i: int| 0 <= i < doc.joint@.len() && is_turned((#[trigger] doc.joint@[i]).origin)
    ||| exists|i: int| 0 <= i < doc.comp@.len() && comp_is_converted(#[trigger] doc.comp@[i])
}

// Ranks.

/// The rank of the worst of some findings.
spec fn worst_rank(list: Seq<FindingView>) -> int {
    findings::worst_tier(list, list.len()).rank()
}

/// The worse of two ranks.
spec fn worse(a: int, b: int) -> int {
    if a < b {
        b
    } else {
        a
    }
}

/// Whether every finding is at a tier below the best.
spec fn are_serious(list: Seq<FindingView>) -> bool {
    forall|i: int| 0 <= i < list.len() ==> (#[trigger] list[i]).tier.rank() > 0
}

proof fn worst_of_front(a: Seq<FindingView>, b: Seq<FindingView>, n: nat)
    requires
        n <= a.len(),
    ensures
        findings::worst_tier(a + b, n) == findings::worst_tier(a, n),
    decreases n,
{
    if n > 0 {
        worst_of_front(a, b, (n - 1) as nat);
        assert((a + b)[n - 1] == a[n - 1]);
    }
}

proof fn worst_of_both(a: Seq<FindingView>, b: Seq<FindingView>, n: nat)
    requires
        n <= b.len(),
    ensures
        findings::worst_tier(a + b, a.len() + n).rank() == worse(
            worst_rank(a),
            findings::worst_tier(b, n).rank(),
        ),
    decreases n,
{
    if n == 0 {
        worst_of_front(a, b, a.len());
    } else {
        worst_of_both(a, b, (n - 1) as nat);
        assert((a + b)[a.len() + n - 1] == b[n - 1]);
    }
}

/// The worst of two lists is the worse of the worst of each.
proof fn joined_rank(a: Seq<FindingView>, b: Seq<FindingView>)
    ensures
        worst_rank(a + b) == worse(worst_rank(a), worst_rank(b)),
        are_serious(a) && are_serious(b) ==> are_serious(a + b),
        (a + b).len() == a.len() + b.len(),
{
    worst_of_both(a, b, b.len());
    assert((a + b).len() == a.len() + b.len());
}

proof fn noted_rank(a: Seq<FindingView>, holds: bool, tier: Tier, code: Seq<char>, detail: Seq<char>)
    ensures
        worst_rank(findings::note(holds, tier, code, detail)) == (if holds {
            tier.rank()
        } else {
            0
        }),
        worst_rank(a + findings::note(holds, tier, code, detail)) == worse(
            worst_rank(a),
            if holds {
                tier.rank()
            } else {
                0
            },
        ),
        are_serious(a) && tier.rank() > 0 ==> are_serious(
            a + findings::note(holds, tier, code, detail),
        ),
        tier.rank() > 0 ==> are_serious(findings::note(holds, tier, code, detail)),
{
    let one = findings::note(holds, tier, code, detail);
    if holds {
        assert(findings::worst_tier(one, 0).rank() == 0);
        assert(one[0].tier == tier);
    }
    joined_rank(a, one);
}

// Sections.

/// The joint types that the findings count as those of URDF are those with its names.
pub proof fn shared_types_are_those_of_urdf(jt: JointType)
    ensures
        is_shared_type(jt.literal()) == findings::is_urdf_joint(jt),
{
    reveal_strlit("revolute");
    reveal_strlit("continuous");
    reveal_strlit("prismatic");
    reveal_strlit("fixed");
    reveal_strlit("ball");
    reveal_strlit("universal");
    reveal_strlit("planar");
    reveal_strlit("screw");
    reveal_strlit("cylindrical");
    reveal_strlit("free");
    match jt {
        JointType::Ball => {
            assert(jt.literal()[0] == 'b');
        },
        JointType::Universal => {
            assert(jt.literal()[0] == 'u');
        },
        JointType::Screw => {
            assert(jt.literal()[0] == 's');
        },
        JointType::Cylindrical => {
            assert(jt.literal().len() == 11);
        },
        _ => {},
    }
    assert("revolute"@[0] == 'r' && "continuous"@[0] == 'c' && "continuous"@.len() == 10
        && "prismatic"@[0] == 'p' && "fixed"@[0] == 'f' && "free"@[0] == 'f' && "planar"@[0] == 'p');
}

/// Two where something holds, and none where it does not.
spec fn out_where(holds: bool) -> int {
    if holds {
        2
    } else {
        0
    }
}

proof fn joint_rank(j: Joint)
    ensures
        worst_rank(findings::joint_notes(j)) == out_where(joint_is_foreign(j)),
        are_serious(findings::joint_notes(j)),
{
    let start = "joint "@ + quote::quoted_option(findings::option_view(j.name));
    let out = Tier::OutOfProfile;
    let n0 = Seq::<FindingView>::empty();
    noted_rank(
        n0,
        j.loop_ is Some,
        out,
        "P_LOOP"@,
        start + ": loop-closure (URDF is tree-only, cannot express a closed kinematic loop)"@,
    );
    let n1 = n0 + findings::note(
        j.loop_ is Some,
        out,
        "P_LOOP"@,
        start + ": loop-closure (URDF is tree-only, cannot express a closed kinematic loop)"@,
    );
    if let Some(jt) = j.type_ {
        shared_types_are_those_of_urdf(jt);
        noted_rank(
            n1,
            !findings::is_urdf_joint(jt),
            out,
            "P_JOINT_TYPE"@,
            start + ": type "@ + quote::quoted(jt.literal()) + " has no URDF equivalent"@,
        );
    } else {
        joined_rank(n1, Seq::empty());
    }
    let n2 = n1 + findings::type_notes(j.type_, start);
    noted_rank(
        n2,
        j.axis2 is Some,
        out,
        "P_AXIS2"@,
        start + ": <axis2> (URDF has a single axis)"@,
    );
    let n3 = n2 + findings::note(
        j.axis2 is Some,
        out,
        "P_AXIS2"@,
        start + ": <axis2> (URDF has a single axis)"@,
    );
    noted_rank(
        n3,
        j.thread_pitch is Some,
        out,
        "P_THREAD_PITCH"@,
        start + ": thread_pitch (URDF has no screw joint)"@,
    );
    let n4 = n3 + findings::note(
        j.thread_pitch is Some,
        out,
        "P_THREAD_PITCH"@,
        start + ": thread_pitch (URDF has no screw joint)"@,
    );
    let d5 = start + ": limit/acceleration (URDF limit has only lower/upper/effort/velocity)"@;
    let h5 = j.limit is Some && j.limit->0.acceleration is Some;
    noted_rank(n4, h5, out, "P_LIMIT_FIELD"@, d5);
    let n5 = n4 + findings::note(h5, out, "P_LIMIT_FIELD"@, d5);
    let d6 = start + ": limit/jerk (URDF limit has only lower/upper/effort/velocity)"@;
    let h6 = j.limit is Some && j.limit->0.jerk is Some;
    noted_rank(n5, h6, out, "P_LIMIT_FIELD"@, d6);
    let n6 = n5 + findings::note(h6, out, "P_LIMIT_FIELD"@, d6);
    let d7 = start + ": limit/deceleration (URDF limit has only lower/upper/effort/velocity)"@;
    let h7 = j.limit is Some && j.limit->0.deceleration is Some;
    noted_rank(n6, h7, out, "P_LIMIT_FIELD"@, d7);
    let n7 = n6 + findings::note(h7, out, "P_LIMIT_FIELD"@, d7);
    let d8 = start + ": dynamics/spring_stiffness (URDF dynamics has only damping/friction)"@;
    let h8 = j.dynamics is Some && j.dynamics->0.spring_stiffness is Some;
    noted_rank(n7, h8, out, "P_DYNAMICS_SPRING"@, d8);
    let n8 = n7 + findings::note(h8, out, "P_DYNAMICS_SPRING"@, d8);
    let d9 = start + ": dynamics/spring_reference (URDF dynamics has only damping/friction)"@;
    let h9 = j.dynamics is Some && j.dynamics->0.spring_reference is Some;
    noted_rank(n8, h9, out, "P_DYNAMICS_SPRING"@, d9);
    let n9 = n8 + findings::note(h9, out, "P_DYNAMICS_SPRING"@, d9);
    let d10 = start + ": <extension> vendor data (no URDF home; joint extensions are not de-merged)"@;
    noted_rank(n9, j.extension is Some, out, "P_JOINT_EXTENSION"@, d10);
    assert(findings::joint_notes(j) == n9 + findings::note(
        j.extension is Some,
        out,
        "P_JOINT_EXTENSION"@,
        d10,
    ));
}

proof fn joints_rank(joints: Seq<Joint>, n: nat)
    requires
        n <= joints.len(),
    ensures
        worst_rank(findings::joints_notes(joints, n)) == out_where(
            exists|i: int| 0 <= i < n && joint_is_foreign(#[trigger] joints[i]),
        ),
        are_serious(findings::joints_notes(joints, n)),
    decreases n,
{
    if n > 0 {
        joints_rank(joints, (n - 1) as nat);
        joint_rank(joints[n - 1]);
        joined_rank(
            findings::joints_notes(joints, (n - 1) as nat),
            findings::joint_notes(joints[n - 1]),
        );
        if joint_is_foreign(joints[n - 1]) {
            assert(exists|i: int| 0 <= i < n && joint_is_foreign(#[trigger] joints[i]));
        }
    }
}

proof fn tree_rank(issues: Seq<Issue>, n: nat)
    requires
        n <= issues.len(),
    ensures
        worst_rank(findings::tree_notes(issues, n)) == out_where(
            exists|i: int| 0 <= i < n && is_tree_error(#[trigger] issues[i]),
        ),
        are_serious(findings::tree_notes(issues, n)),
    decreases n,
{
    if n > 0 {
        tree_rank(issues, (n - 1) as nat);
        let issue = issues[n - 1];
        noted_rank(
            findings::tree_notes(issues, (n - 1) as nat),
            findings::breaks_the_tree(issue),
            Tier::OutOfProfile,
            "P_NOT_A_TREE"@,
            issue.code@ + ": "@ + issue.message@,
        );
        assert(findings::breaks_the_tree(issue) == is_tree_error(issue));
        if is_tree_error(issue) {
            assert(exists|i: int| 0 <= i < n && is_tree_error(#[trigger] issues[i]));
        }
    }
}

/// Whether a component hangs is whether a joint attaches it.
proof fn hanging_is_attached(doc: Hcdf, at: int)
    ensures
        hangs(doc, at) == findings::is_attached(doc.joint@, doc.comp@[at].name@),
{
    let name = doc.comp@[at].name@;
    if hangs(doc, at) {
        let k = choose|k: int|
            0 <= k < doc.joint@.len() && (#[trigger] doc.joint@[k]).loop_ is None
                && doc.joint@[k].child is Some && doc.joint@[k].child->0.comp is Some
                && doc.joint@[k].child->0.comp->0@ == name;
        assert(findings::attaches(doc.joint@[k], name));
    }
    if findings::is_attached(doc.joint@, name) {
        let k = choose|k: int|
            0 <= k < doc.joint@.len() && findings::attaches(#[trigger] doc.joint@[k], name);
        assert(doc.joint@[k].loop_ is None);
    }
}

/// How many of the first components hang from nothing: none, one, or two or more.
proof fn roots_counted(doc: Hcdf, n: nat)
    requires
        n <= doc.comp@.len(),
    ensures
        findings::root_names(doc.comp@, doc.joint@, n).len() == 0 <==> forall|i: int|
            0 <= i < n ==> #[trigger] hangs(doc, i),
        findings::root_names(doc.comp@, doc.joint@, n).len() > 1 <==> exists|i: int, j: int|
            0 <= i < j < n && !(#[trigger] hangs(doc, i)) && !(#[trigger] hangs(doc, j)),
    decreases n,
{
    if n > 0 {
        roots_counted(doc, (n - 1) as nat);
        hanging_is_attached(doc, n - 1);
        let before = findings::root_names(doc.comp@, doc.joint@, (n - 1) as nat);
        if !hangs(doc, n - 1) && before.len() > 0 {
            let i = choose|i: int| 0 <= i < n - 1 && !(#[trigger] hangs(doc, i));
            assert(!hangs(doc, i) && !hangs(doc, n - 1));
        }
    }
}

proof fn root_rank(doc: Hcdf)
    ensures
        worst_rank(findings::root_notes(doc)) == out_where(is_no_tree(doc)),
        are_serious(findings::root_notes(doc)),
{
    let roots = findings::root_names(doc.comp@, doc.joint@, doc.comp@.len());
    roots_counted(doc, doc.comp@.len());
    noted_rank(
        Seq::empty(),
        true,
        Tier::OutOfProfile,
        "P_NO_ROOT"@,
        "no root comp (every comp is a joint child; a tree needs one root)"@,
    );
    noted_rank(
        Seq::empty(),
        roots.len() > 1,
        Tier::OutOfProfile,
        "P_MULTI_ROOT"@,
        findings::several_roots(roots),
    );
}

proof fn dropped_rank(a: Seq<FindingView>, code: Seq<char>, start: Seq<char>, n: nat, label: Seq<char>)
    ensures
        worst_rank(a + findings::dropped_notes(code, start, n, label)) == worse(
            worst_rank(a),
            out_where(n > 0),
        ),
        are_serious(a) ==> are_serious(a + findings::dropped_notes(code, start, n, label)),
{
    noted_rank(
        a,
        n > 0,
        Tier::OutOfProfile,
        code,
        start + ": "@ + text::decimal(n) + " "@ + label + " (HCDF-only; no URDF home)"@,
    );
}

proof fn metadata_rank(
    a: Seq<FindingView>,
    code: Seq<char>,
    start: Seq<char>,
    label: Seq<char>,
    value: Option<String>,
)
    ensures
        worst_rank(a + findings::metadata_notes(code, start, label, value)) == worse(
            worst_rank(a),
            out_where(value is Some),
        ),
        are_serious(a) ==> are_serious(a + findings::metadata_notes(code, start, label, value)),
{
    if let Some(v) = value {
        noted_rank(
            a,
            true,
            Tier::OutOfProfile,
            code,
            start + ": "@ + label + "="@ + quote::quoted(v@)
                + " (HCDF-only metadata; no URDF home)"@,
        );
    } else {
        joined_rank(a, Seq::empty());
    }
}

proof fn comp_dropped_rank(comp: Comp, ctx: Seq<char>)
    ensures
        worst_rank(findings::comp_dropped_notes(comp, ctx)) == out_where(
            comp.sensor@.len() + comp.motor@.len() + comp.hmi@.len() + comp.dynamic_surface@.len()
                + comp.power_source@.len() + comp.port@.len() + comp.antenna@.len()
                + comp.frame@.len() + comp.extension@.len() > 0 || comp.struct_type is Some
                || comp.ip_rating is Some || comp.role is Some || comp.hwid is Some,
        ),
        are_serious(findings::comp_dropped_notes(comp, ctx)),
{
    let n0 = Seq::<FindingView>::empty();
    dropped_rank(n0, "P_COMP_SENSOR"@, ctx, comp.sensor@.len(), "sensors"@);
    let n1 = n0 + findings::dropped_notes("P_COMP_SENSOR"@, ctx, comp.sensor@.len(), "sensors"@);
    dropped_rank(n1, "P_COMP_MOTOR"@, ctx, comp.motor@.len(), "motors"@);
    let n2 = n1 + findings::dropped_notes("P_COMP_MOTOR"@, ctx, comp.motor@.len(), "motors"@);
    dropped_rank(n2, "P_COMP_HMI"@, ctx, comp.hmi@.len(), "HMI elements"@);
    let n3 = n2 + findings::dropped_notes("P_COMP_HMI"@, ctx, comp.hmi@.len(), "HMI elements"@);
    dropped_rank(n3, "P_COMP_DYNAMIC_SURFACE"@, ctx, comp.dynamic_surface@.len(), "dynamic surfaces"@);
    let n4 = n3 + findings::dropped_notes("P_COMP_DYNAMIC_SURFACE"@, ctx, comp.dynamic_surface@.len(), "dynamic surfaces"@);
    dropped_rank(n4, "P_COMP_POWER_SOURCE"@, ctx, comp.power_source@.len(), "power sources"@);
    let n5 = n4 + findings::dropped_notes("P_COMP_POWER_SOURCE"@, ctx, comp.power_source@.len(), "power sources"@);
    dropped_rank(n5, "P_COMP_PORT"@, ctx, comp.port@.len(), "ports"@);
    let n6 = n5 + findings::dropped_notes("P_COMP_PORT"@, ctx, comp.port@.len(), "ports"@);
    dropped_rank(n6, "P_COMP_ANTENNA"@, ctx, comp.antenna@.len(), "antennas"@);
    let n7 = n6 + findings::dropped_notes("P_COMP_ANTENNA"@, ctx, comp.antenna@.len(), "antennas"@);
    dropped_rank(n7, "P_COMP_FRAME"@, ctx, comp.frame@.len(), "coordinate frames"@);
    let n8 = n7 + findings::dropped_notes("P_COMP_FRAME"@, ctx, comp.frame@.len(), "coordinate frames"@);
    dropped_rank(n8, "P_COMP_EXTENSION"@, ctx, comp.extension@.len(), "vendor extensions"@);
    let n9 = n8 + findings::dropped_notes("P_COMP_EXTENSION"@, ctx, comp.extension@.len(), "vendor extensions"@);
    metadata_rank(n9, "P_COMP_STRUCT_TYPE"@, ctx, "struct-type"@, comp.struct_type);
    let n10 = n9 + findings::metadata_notes("P_COMP_STRUCT_TYPE"@, ctx, "struct-type"@, comp.struct_type);
    metadata_rank(n10, "P_COMP_IP_RATING"@, ctx, "ip-rating"@, comp.ip_rating);
    let n11 = n10 + findings::metadata_notes("P_COMP_IP_RATING"@, ctx, "ip-rating"@, comp.ip_rating);
    if let Some(role) = comp.role {
        noted_rank(
            n11,
            true,
            Tier::OutOfProfile,
            "P_COMP_ROLE"@,
            ctx + ": role="@ + quote::quoted_enum("CompRole"@, role.literal())
                + " (HCDF-only metadata; no URDF home)"@,
        );
    } else {
        joined_rank(n11, Seq::empty());
    }
    let n12 = n11 + findings::role_notes(comp.role, ctx);
    metadata_rank(n12, "P_COMP_HWID"@, ctx, "hwid"@, comp.hwid);
    assert(findings::comp_dropped_notes(comp, ctx) == n12 + findings::metadata_notes(
        "P_COMP_HWID"@,
        ctx,
        "hwid"@,
        comp.hwid,
    ));
}

proof fn shape_rank(
    bad: Option<Seq<char>>,
    present: bool,
    start: Seq<char>,
    code: Seq<char>,
    without: Seq<char>,
)
    ensures
        worst_rank(findings::shape_notes(bad, present, start, code, without)) == out_where(
            bad is Some || !present,
        ),
        are_serious(findings::shape_notes(bad, present, start, code, without)),
{
    let none = Seq::<FindingView>::empty();
    match bad {
        Some(name) => {
            noted_rank(
                none,
                true,
                Tier::OutOfProfile,
                "P_GEOMETRY"@,
                start + ": <"@ + name + "> has no URDF primitive"@,
            );
        },
        None => {
            noted_rank(none, !present, Tier::OutOfProfile, code, start + without);
        },
    }
}

proof fn visual_rank(v: Visual, ctx: Seq<char>)
    ensures
        worst_rank(findings::visual_notes(v, ctx)) == (if visual_is_foreign(v) {
            2
        } else if v.appearance is Model {
            1
        } else {
            0int
        }),
        are_serious(findings::visual_notes(v, ctx)),
{
    let start = ctx + " visual "@ + quote::quoted(v.name@);
    let none = Seq::<FindingView>::empty();
    let looks = findings::appearance_notes(v.appearance, start);
    match v.appearance {
        VisualAppearance::Model { .. } => {
            noted_rank(
                none,
                true,
                Tier::WithTransform,
                "P_GLB_MODEL"@,
                start
                    + ": GLB <model>: geometry exports as a URDF mesh ref, but baked PBR/textures are not represented in URDF"@,
            );
        },
        VisualAppearance::Primitive { geometry, .. } => {
            let bad = findings::optional_visual_bad_shape(geometry);
            let present = geometry is Some && findings::visual_has_shape(geometry->0);
            shape_rank(
                bad,
                present,
                start,
                "P_VISUAL_NO_GEOMETRY"@,
                ": neither a GLB <model> nor a URDF primitive, dropped on export"@,
            );
        },
    }
    noted_rank(
        looks,
        v.toggle is Some,
        Tier::OutOfProfile,
        "P_VISUAL_TOGGLE"@,
        start + ": toggle group "@ + quote::quoted_option(findings::option_view(v.toggle))
            + " (HCDF runtime show/hide grouping; no URDF home)"@,
    );
}

proof fn collision_rank(c: Collision, ctx: Seq<char>)
    ensures
        worst_rank(findings::collision_notes(c, ctx)) == out_where(collision_is_foreign(c)),
        are_serious(findings::collision_notes(c, ctx)),
{
    let start = ctx + " collision "@ + quote::quoted_option(findings::option_view(c.name));
    let bad = findings::optional_collision_bad_shape(c.geometry);
    let present = c.geometry is Some && findings::collision_has_shape(c.geometry->0);
    let code = "P_COLLISION_NO_GEOMETRY"@;
    let without = ": no URDF-representable geometry, dropped on export"@;
    shape_rank(bad, present, start, code, without);
    noted_rank(
        findings::shape_notes(bad, present, start, code, without),
        c.surface is Some,
        Tier::OutOfProfile,
        "P_SURFACE"@,
        start + ": <surface> contact physics (no URDF core home; lives in <gazebo> at sim time)"@,
    );
}

proof fn visuals_rank(list: Seq<Visual>, ctx: Seq<char>, n: nat)
    requires
        n <= list.len(),
    ensures
        worst_rank(findings::visuals_notes(list, ctx, n)) == (if exists|i: int|
            0 <= i < n && visual_is_foreign(#[trigger] list[i]) {
            2
        } else if exists|i: int| 0 <= i < n && (#[trigger] list[i]).appearance is Model {
            1
        } else {
            0int
        }),
        are_serious(findings::visuals_notes(list, ctx, n)),
    decreases n,
{
    if n > 0 {
        visuals_rank(list, ctx, (n - 1) as nat);
        visual_rank(list[n - 1], ctx);
        joined_rank(
            findings::visuals_notes(list, ctx, (n - 1) as nat),
            findings::visual_notes(list[n - 1], ctx),
        );
        if visual_is_foreign(list[n - 1]) {
            assert(exists|i: int| 0 <= i < n && visual_is_foreign(#[trigger] list[i]));
        }
        if list[n - 1].appearance is Model {
            assert(exists|i: int| 0 <= i < n && (#[trigger] list[i]).appearance is Model);
        }
    }
}

proof fn collisions_rank(list: Seq<Collision>, ctx: Seq<char>, n: nat)
    requires
        n <= list.len(),
    ensures
        worst_rank(findings::collisions_notes(list, ctx, n)) == out_where(
            exists|i: int| 0 <= i < n && collision_is_foreign(#[trigger] list[i]),
        ),
        are_serious(findings::collisions_notes(list, ctx, n)),
    decreases n,
{
    if n > 0 {
        collisions_rank(list, ctx, (n - 1) as nat);
        collision_rank(list[n - 1], ctx);
        joined_rank(
            findings::collisions_notes(list, ctx, (n - 1) as nat),
            findings::collision_notes(list[n - 1], ctx),
        );
        if collision_is_foreign(list[n - 1]) {
            assert(exists|i: int| 0 <= i < n && collision_is_foreign(#[trigger] list[i]));
        }
    }
}

/// Whether a component has a visual that is a model.
pub open spec fn has_model(comp: Comp) -> bool {
    exists|i: int| 0 <= i < comp.visual@.len() && (#[trigger] comp.visual@[i]).appearance is Model
}

proof fn comp_rank(comp: Comp)
    ensures
        worst_rank(findings::comp_notes(comp)) == (if comp_is_foreign(comp) {
            2
        } else if has_model(comp) {
            1
        } else {
            0int
        }),
        are_serious(findings::comp_notes(comp)),
{
    let ctx = "comp "@ + quote::quoted(comp.name@);
    let none = Seq::<FindingView>::empty();
    let inertia = findings::inertia_notes(comp.inertial, ctx);
    if comp.inertial is Some && comp.inertial->0.inertia is Some {
        let words = comp.inertial->0.inertia->0@;
        noted_rank(
            none,
            findings::word_count(words) != 6,
            Tier::OutOfProfile,
            "P_INERTIA_ARITY"@,
            ctx + ": inertia tuple "@ + quote::quoted(words)
                + " is not 6 values (the rotational inertia matrix is dropped on URDF export)"@,
        );
    }
    let visuals = findings::visuals_notes(comp.visual@, ctx, comp.visual@.len());
    let collisions = findings::collisions_notes(comp.collision@, ctx, comp.collision@.len());
    visuals_rank(comp.visual@, ctx, comp.visual@.len());
    collisions_rank(comp.collision@, ctx, comp.collision@.len());
    comp_dropped_rank(comp, ctx);
    joined_rank(inertia, visuals);
    joined_rank(inertia + visuals, collisions);
    joined_rank(inertia + visuals + collisions, findings::comp_dropped_notes(comp, ctx));
}

proof fn comps_rank(list: Seq<Comp>, n: nat)
    requires
        n <= list.len(),
    ensures
        worst_rank(findings::comps_notes(list, n)) == (if exists|i: int|
            0 <= i < n && comp_is_foreign(#[trigger] list[i]) {
            2
        } else if exists|i: int| 0 <= i < n && has_model(#[trigger] list[i]) {
            1
        } else {
            0int
        }),
        are_serious(findings::comps_notes(list, n)),
    decreases n,
{
    if n > 0 {
        comps_rank(list, (n - 1) as nat);
        comp_rank(list[n - 1]);
        joined_rank(
            findings::comps_notes(list, (n - 1) as nat),
            findings::comp_notes(list[n - 1]),
        );
        if comp_is_foreign(list[n - 1]) {
            assert(exists|i: int| 0 <= i < n && comp_is_foreign(#[trigger] list[i]));
        }
        if has_model(list[n - 1]) {
            assert(exists|i: int| 0 <= i < n && has_model(#[trigger] list[i]));
        }
    }
}

proof fn turned_count(poses: spec_fn(int) -> Option<Pose>, n: nat)
    ensures
        findings::quat_count(poses, n) > 0 <==> exists|i: int|
            0 <= i < n && is_turned(#[trigger] poses(i)),
    decreases n,
{
    if n > 0 {
        turned_count(poses, (n - 1) as nat);
        if is_turned(poses(n - 1)) {
            assert(exists|i: int| 0 <= i < n && is_turned(#[trigger] poses(i)));
        }
    }
}

/// Whether a component has a pose that is given by a quaternion.
pub open spec fn has_turned(comp: Comp) -> bool {
    ||| comp.inertial is Some && is_turned(comp.inertial->0.inertia_origin)
    ||| exists|i: int| 0 <= i < comp.visual@.len() && is_turned((#[trigger] comp.visual@[i]).pose)
    ||| exists|i: int|
        0 <= i < comp.collision@.len() && is_turned((#[trigger] comp.collision@[i]).pose)
}

proof fn comp_turned(comp: Comp)
    ensures
        findings::comp_quats(comp) > 0 <==> has_turned(comp),
{
    let visuals = |i: int| comp.visual@[i].pose;
    let collisions = |i: int| comp.collision@[i].pose;
    turned_count(visuals, comp.visual@.len());
    turned_count(collisions, comp.collision@.len());
    if exists|i: int| 0 <= i < comp.visual@.len() && is_turned((#[trigger] comp.visual@[i]).pose) {
        let i = choose|i: int|
            0 <= i < comp.visual@.len() && is_turned((#[trigger] comp.visual@[i]).pose);
        assert(is_turned(visuals(i)));
    }
    if exists|i: int| 0 <= i < comp.visual@.len() && is_turned(#[trigger] visuals(i)) {
        let i = choose|i: int| 0 <= i < comp.visual@.len() && is_turned(#[trigger] visuals(i));
        assert(is_turned(comp.visual@[i].pose));
    }
    if exists|i: int|
        0 <= i < comp.collision@.len() && is_turned((#[trigger] comp.collision@[i]).pose) {
        let i = choose|i: int|
            0 <= i < comp.collision@.len() && is_turned((#[trigger] comp.collision@[i]).pose);
        assert(is_turned(collisions(i)));
    }
    if exists|i: int| 0 <= i < comp.collision@.len() && is_turned(#[trigger] collisions(i)) {
        let i = choose|i: int| 0 <= i < comp.collision@.len() && is_turned(#[trigger] collisions(i));
        assert(is_turned(comp.collision@[i].pose));
    }
}

proof fn comps_turned(list: Seq<Comp>, n: nat)
    requires
        n <= list.len(),
    ensures
        findings::comps_quats(list, n) > 0 <==> exists|i: int|
            0 <= i < n && has_turned(#[trigger] list[i]),
    decreases n,
{
    if n > 0 {
        comps_turned(list, (n - 1) as nat);
        comp_turned(list[n - 1]);
        if has_turned(list[n - 1]) {
            assert(exists|i: int| 0 <= i < n && has_turned(#[trigger] list[i]));
        }
    }
}

proof fn document_turned(doc: Hcdf)
    ensures
        findings::quat_poses(doc) > 0 <==> ((exists|i: int|
            0 <= i < doc.joint@.len() && is_turned((#[trigger] doc.joint@[i]).origin)) || exists|i:
            int| 0 <= i < doc.comp@.len() && has_turned(#[trigger] doc.comp@[i])),
{
    let origins = |i: int| doc.joint@[i].origin;
    turned_count(origins, doc.joint@.len());
    comps_turned(doc.comp@, doc.comp@.len());
    if exists|i: int| 0 <= i < doc.joint@.len() && is_turned((#[trigger] doc.joint@[i]).origin) {
        let i = choose|i: int|
            0 <= i < doc.joint@.len() && is_turned((#[trigger] doc.joint@[i]).origin);
        assert(is_turned(origins(i)));
    }
    if exists|i: int| 0 <= i < doc.joint@.len() && is_turned(#[trigger] origins(i)) {
        let i = choose|i: int| 0 <= i < doc.joint@.len() && is_turned(#[trigger] origins(i));
        assert(is_turned(doc.joint@[i].origin));
    }
}

proof fn top_rank(doc: Hcdf)
    ensures
        worst_rank(findings::top_notes(doc)) == (if doc.group@.len() + doc.state@.len() > 0
            || doc.link@.len() + doc.bus@.len() + doc.chain@.len() + doc.star@.len()
            + doc.ring@.len() + doc.mesh@.len() + doc.tree@.len() > 0
            || doc.self_collision_disable is Some {
            2
        } else if doc.includes@.len() > 0 || findings::quat_poses(doc) > 0 {
            1
        } else {
            0int
        }),
        are_serious(findings::top_notes(doc)),
{
    let n0 = Seq::<FindingView>::empty();
    let networks = findings::capped(findings::network_count(doc));
    let blocks: nat = if doc.self_collision_disable is Some {
        1
    } else {
        0
    };
    dropped_rank(n0, "P_GROUP"@, "document"@, doc.group@.len(), "joint groups"@);
    let n1 = n0 + findings::dropped_notes(
        "P_GROUP"@,
        "document"@,
        doc.group@.len(),
        "joint groups"@,
    );
    dropped_rank(n1, "P_STATE"@, "document"@, doc.state@.len(), "kinematic states"@);
    let n2 = n1 + findings::dropped_notes(
        "P_STATE"@,
        "document"@,
        doc.state@.len(),
        "kinematic states"@,
    );
    dropped_rank(n2, "P_NETWORK"@, "document"@, networks, "networks"@);
    let n3 = n2 + findings::dropped_notes("P_NETWORK"@, "document"@, networks, "networks"@);
    dropped_rank(
        n3,
        "P_SELF_COLLISION_DISABLE"@,
        "document"@,
        blocks,
        "self-collision-disable blocks"@,
    );
    let n4 = n3 + findings::dropped_notes(
        "P_SELF_COLLISION_DISABLE"@,
        "document"@,
        blocks,
        "self-collision-disable blocks"@,
    );
    let d5 = "document: "@ + text::decimal(doc.includes@.len())
        + " <include>(s); flatten with hcdf.io.flatten() before URDF export"@;
    noted_rank(n4, doc.includes@.len() > 0, Tier::WithTransform, "P_INCLUDE"@, d5);
    let n5 = n4 + findings::note(doc.includes@.len() > 0, Tier::WithTransform, "P_INCLUDE"@, d5);
    let d6 = text::decimal(findings::capped(findings::quat_poses(doc)))
        + " pose(s) use quat orientation; emitted as URDF rpy (rotation preserved exactly; URDF <origin> has no quaternion)"@;
    noted_rank(n5, findings::quat_poses(doc) > 0, Tier::WithTransform, "P_POSE_QUAT"@, d6);
    assert(findings::top_notes(doc) == n5 + findings::note(
        findings::quat_poses(doc) > 0,
        Tier::WithTransform,
        "P_POSE_QUAT"@,
        d6,
    ));
}

proof fn frame_rank(doc: Hcdf)
    ensures
        worst_rank(findings::frame_notes(doc)) == (if doc.body_frame == Some(BodyFrame::FRD)
            || doc.world_frame == Some(WorldFrame::NED) {
            1
        } else {
            0int
        }),
        are_serious(findings::frame_notes(doc)),
{
    let d1 = "body-frame FRD: body poses and joint axes are converted to URDF FLU on export (lossless)"@;
    let d2 = "world-frame NED: URDF is ENU; world-relative placements need conversion (note: to_urdf does not yet apply the world transform; body poses ARE converted)"@;
    let frd = doc.body_frame == Some(BodyFrame::FRD);
    let first = findings::note(frd, Tier::WithTransform, "P_BODY_FRD"@, d1);
    noted_rank(Seq::empty(), frd, Tier::WithTransform, "P_BODY_FRD"@, d1);
    noted_rank(
        first,
        doc.world_frame == Some(WorldFrame::NED),
        Tier::WithTransform,
        "P_WORLD_NED"@,
        d2,
    );
}

proof fn document_rank(doc: Hcdf, issues: Seq<Issue>)
    ensures
        worst_rank(findings::document_notes(doc, issues)) == (if drops_content(doc, issues) {
            2
        } else if converts_content(doc) {
            1
        } else {
            0int
        }),
        are_serious(findings::document_notes(doc, issues)),
{
    let tree = findings::tree_notes(issues, issues.len());
    let root = findings::root_notes(doc);
    let frame = findings::frame_notes(doc);
    let joints = findings::joints_notes(doc.joint@, doc.joint@.len());
    let comps = findings::comps_notes(doc.comp@, doc.comp@.len());
    tree_rank(issues, issues.len());
    root_rank(doc);
    frame_rank(doc);
    joints_rank(doc.joint@, doc.joint@.len());
    comps_rank(doc.comp@, doc.comp@.len());
    top_rank(doc);
    document_turned(doc);
    joined_rank(tree, root);
    joined_rank(tree + root, frame);
    joined_rank(tree + root + frame, joints);
    joined_rank(tree + root + frame + joints, comps);
    joined_rank(tree + root + frame + joints + comps, findings::top_notes(doc));
    assert((exists|i: int| 0 <= i < doc.comp@.len() && comp_is_converted(#[trigger] doc.comp@[i]))
        == ((exists|i: int| 0 <= i < doc.comp@.len() && has_model(#[trigger] doc.comp@[i]))
        || exists|i: int| 0 <= i < doc.comp@.len() && has_turned(#[trigger] doc.comp@[i]))) by {
        assert forall|i: int| 0 <= i < doc.comp@.len() implies comp_is_converted(
            #[trigger] doc.comp@[i],
        ) == (has_model(doc.comp@[i]) || has_turned(doc.comp@[i])) by {
            converted_is_modelled_or_turned(doc.comp@[i]);
        }
        if exists|i: int| 0 <= i < doc.comp@.len() && has_model(#[trigger] doc.comp@[i]) {
            let i = choose|i: int| 0 <= i < doc.comp@.len() && has_model(#[trigger] doc.comp@[i]);
            assert(comp_is_converted(doc.comp@[i]));
        }
        if exists|i: int| 0 <= i < doc.comp@.len() && has_turned(#[trigger] doc.comp@[i]) {
            let i = choose|i: int| 0 <= i < doc.comp@.len() && has_turned(#[trigger] doc.comp@[i]);
            assert(comp_is_converted(doc.comp@[i]));
        }
    }
}

proof fn converted_is_modelled_or_turned(comp: Comp)
    ensures
        comp_is_converted(comp) == (has_model(comp) || has_turned(comp)),
{
    if has_model(comp) {
        let i = choose|i: int|
            0 <= i < comp.visual@.len() && (#[trigger] comp.visual@[i]).appearance is Model;
        assert(comp.visual@[i].appearance is Model || is_turned(comp.visual@[i].pose));
    }
    if exists|i: int| 0 <= i < comp.visual@.len() && is_turned((#[trigger] comp.visual@[i]).pose) {
        let i = choose|i: int|
            0 <= i < comp.visual@.len() && is_turned((#[trigger] comp.visual@[i]).pose);
        assert(comp.visual@[i].appearance is Model || is_turned(comp.visual@[i].pose));
    }
}

/// A document is out of profile exactly when an export to URDF drops something of it, and in profile
/// with a transform exactly when the export keeps everything but keeps something in another form. A
/// document of neither kind is in profile as it is, and has no findings.
pub proof fn the_tier_says_what_an_export_keeps(doc: Hcdf, issues: Seq<Issue>, r: ProfileReport)
    requires
        findings::finding_views(r.findings@) == findings::document_notes(doc, issues),
        r.classification == findings::worst_tier(
            findings::document_notes(doc, issues),
            findings::document_notes(doc, issues).len(),
        ),
    ensures
        r.classification is OutOfProfile <==> drops_content(doc, issues),
        r.classification is WithTransform <==> !drops_content(doc, issues) && converts_content(doc),
        r.classification is Identity <==> !drops_content(doc, issues) && !converts_content(doc),
        r.findings@.len() == 0 <==> !drops_content(doc, issues) && !converts_content(doc),
{
    let notes = findings::document_notes(doc, issues);
    document_rank(doc, issues);
    findings::worst_tier_is_worst(notes);
    assert(findings::finding_views(r.findings@).len() == r.findings@.len());
    if notes.len() > 0 {
        assert(notes[0].tier.rank() > 0);
    }
}

} // verus!
