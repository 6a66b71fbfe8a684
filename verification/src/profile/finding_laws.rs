//! Which findings a document has: for each reason its own, with its tier, its code and its words.
use vstd::prelude::*;
use crate::model::enums::{BodyFrame, WorldFrame};
use crate::model::{Collision, Comp, Hcdf, Joint, Visual, VisualAppearance};
use crate::quote;
use crate::text;
use super::findings;
use super::findings::{FindingView, Issue, Tier};
use super::laws;
use super::reasons;

verus! {

/// Whether a finding has this tier, this code and these words.
pub open spec fn is_finding(f: FindingView, tier: Tier, code: Seq<char>, detail: Seq<char>) -> bool {
    f.tier == tier && f.code == code && f.detail == detail
}

/// Whether a finding says that content of a kind is left out, and how much of it.
pub open spec fn is_left_out(
    f: FindingView,
    code: Seq<char>,
    who: Seq<char>,
    n: nat,
    what: Seq<char>,
) -> bool {
    n > 0 && is_finding(
        f,
        Tier::OutOfProfile,
        code,
        who + ": "@ + text::decimal(n) + " "@ + what + " (HCDF-only; no URDF home)"@,
    )
}

/// Whether a finding says that a value that describes a component is left out.
pub open spec fn is_description_left_out(
    f: FindingView,
    code: Seq<char>,
    who: Seq<char>,
    what: Seq<char>,
    value: Option<String>,
) -> bool {
    value is Some && is_finding(
        f,
        Tier::OutOfProfile,
        code,
        who + ": "@ + what + "="@ + quote::quoted(value->0@) + " (HCDF-only metadata; no URDF home)"@,
    )
}

/// Whether a finding is one on a joint.
pub open spec fn is_on_joint(j: Joint, f: FindingView) -> bool {
    let who = reasons::joint_name(j);
    ||| j.loop_ is Some && is_finding(f, Tier::OutOfProfile, "P_LOOP"@, who + ": loop-closure (URDF is tree-only, cannot express a closed kinematic loop)"@)
    ||| laws::has_foreign_type(j) && is_finding(f, Tier::OutOfProfile, "P_JOINT_TYPE"@, who + ": type "@ + quote::quoted(j.type_->0.literal()) + " has no URDF equivalent"@)
    ||| j.axis2 is Some && is_finding(f, Tier::OutOfProfile, "P_AXIS2"@, who + ": <axis2> (URDF has a single axis)"@)
    ||| j.thread_pitch is Some && is_finding(f, Tier::OutOfProfile, "P_THREAD_PITCH"@, who + ": thread_pitch (URDF has no screw joint)"@)
    ||| j.limit is Some && j.limit->0.acceleration is Some && is_finding(f, Tier::OutOfProfile, "P_LIMIT_FIELD"@, who + ": limit/acceleration (URDF limit has only lower/upper/effort/velocity)"@)
    ||| j.limit is Some && j.limit->0.jerk is Some && is_finding(f, Tier::OutOfProfile, "P_LIMIT_FIELD"@, who + ": limit/jerk (URDF limit has only lower/upper/effort/velocity)"@)
    ||| j.limit is Some && j.limit->0.deceleration is Some && is_finding(f, Tier::OutOfProfile, "P_LIMIT_FIELD"@, who + ": limit/deceleration (URDF limit has only lower/upper/effort/velocity)"@)
    ||| j.dynamics is Some && j.dynamics->0.spring_stiffness is Some && is_finding(f, Tier::OutOfProfile, "P_DYNAMICS_SPRING"@, who + ": dynamics/spring_stiffness (URDF dynamics has only damping/friction)"@)
    ||| j.dynamics is Some && j.dynamics->0.spring_reference is Some && is_finding(f, Tier::OutOfProfile, "P_DYNAMICS_SPRING"@, who + ": dynamics/spring_reference (URDF dynamics has only damping/friction)"@)
    ||| j.extension is Some && is_finding(f, Tier::OutOfProfile, "P_JOINT_EXTENSION"@, who + ": <extension> vendor data (no URDF home; joint extensions are not de-merged)"@)
}

/// Whether a finding is one on the shape of an element, which URDF does not have, or has no shape of.
pub open spec fn is_on_shape(
    capsule: bool,
    cone: bool,
    ellipsoid: bool,
    drawn: bool,
    who: Seq<char>,
    code: Seq<char>,
    without: Seq<char>,
    f: FindingView,
) -> bool {
    let none = " has no URDF primitive"@;
    ||| capsule && is_finding(f, Tier::OutOfProfile, "P_GEOMETRY"@, who + ": <"@ + "capsule"@ + ">"@ + none)
    ||| !capsule && cone && is_finding(
        f,
        Tier::OutOfProfile,
        "P_GEOMETRY"@,
        who + ": <"@ + "cone"@ + ">"@ + none,
    )
    ||| !capsule && !cone && ellipsoid && is_finding(
        f,
        Tier::OutOfProfile,
        "P_GEOMETRY"@,
        who + ": <"@ + "ellipsoid"@ + ">"@ + none,
    )
    ||| !capsule && !cone && !ellipsoid && !drawn && is_finding(
        f,
        Tier::OutOfProfile,
        code,
        who + without,
    )
}

/// Whether a finding is one on a visual.
pub open spec fn is_on_visual(v: Visual, of: Seq<char>, f: FindingView) -> bool {
    let who = of + " visual "@ + quote::quoted(v.name@);
    ||| v.toggle is Some && is_finding(
        f,
        Tier::OutOfProfile,
        "P_VISUAL_TOGGLE"@,
        who + ": toggle group "@ + quote::quoted_option(Some(v.toggle->0@))
            + " (HCDF runtime show/hide grouping; no URDF home)"@,
    )
    ||| v.appearance is Model && is_finding(
        f,
        Tier::WithTransform,
        "P_GLB_MODEL"@,
        who
            + ": GLB <model>: geometry exports as a URDF mesh ref, but baked PBR/textures are not represented in URDF"@,
    )
    ||| v.appearance matches VisualAppearance::Primitive { geometry: g, .. } && is_on_shape(
        g is Some && g->0.capsule is Some,
        g is Some && g->0.cone is Some,
        g is Some && g->0.ellipsoid is Some,
        g is Some && (g->0.box_ is Some || g->0.cylinder is Some || g->0.sphere is Some),
        who,
        "P_VISUAL_NO_GEOMETRY"@,
        ": neither a GLB <model> nor a URDF primitive, dropped on export"@,
        f,
    )
}

/// Whether a finding is one on a collision.
pub open spec fn is_on_collision(c: Collision, of: Seq<char>, f: FindingView) -> bool {
    let g = c.geometry;
    let who = of + " collision "@ + quote::quoted_option(findings::option_view(c.name));
    ||| c.surface is Some && is_finding(
        f,
        Tier::OutOfProfile,
        "P_SURFACE"@,
        who + ": <surface> contact physics (no URDF core home; lives in <gazebo> at sim time)"@,
    )
    ||| is_on_shape(
        g is Some && g->0.capsule is Some,
        g is Some && g->0.cone is Some,
        g is Some && g->0.ellipsoid is Some,
        g is Some && (g->0.box_ is Some || g->0.cylinder is Some || g->0.sphere is Some || g->0.mesh is Some),
        who,
        "P_COLLISION_NO_GEOMETRY"@,
        ": no URDF-representable geometry, dropped on export"@,
        f,
    )
}

/// Whether a finding is one on what a component holds beside its visuals, collisions and inertia.
pub open spec fn is_on_extras(c: Comp, who: Seq<char>, f: FindingView) -> bool {
    ||| is_left_out(f, "P_COMP_SENSOR"@, who, c.sensor@.len(), "sensors"@)
    ||| is_left_out(f, "P_COMP_MOTOR"@, who, c.motor@.len(), "motors"@)
    ||| is_left_out(f, "P_COMP_HMI"@, who, c.hmi@.len(), "HMI elements"@)
    ||| is_left_out(f, "P_COMP_DYNAMIC_SURFACE"@, who, c.dynamic_surface@.len(), "dynamic surfaces"@)
    ||| is_left_out(f, "P_COMP_POWER_SOURCE"@, who, c.power_source@.len(), "power sources"@)
    ||| is_left_out(f, "P_COMP_PORT"@, who, c.port@.len(), "ports"@)
    ||| is_left_out(f, "P_COMP_ANTENNA"@, who, c.antenna@.len(), "antennas"@)
    ||| is_left_out(f, "P_COMP_FRAME"@, who, c.frame@.len(), "coordinate frames"@)
    ||| is_left_out(f, "P_COMP_EXTENSION"@, who, c.extension@.len(), "vendor extensions"@)
    ||| is_description_left_out(f, "P_COMP_STRUCT_TYPE"@, who, "struct-type"@, c.struct_type)
    ||| is_description_left_out(f, "P_COMP_IP_RATING"@, who, "ip-rating"@, c.ip_rating)
    ||| c.role is Some && is_finding(
        f,
        Tier::OutOfProfile,
        "P_COMP_ROLE"@,
        who + ": role="@ + quote::quoted_enum("CompRole"@, c.role->0.literal())
            + " (HCDF-only metadata; no URDF home)"@,
    )
    ||| is_description_left_out(f, "P_COMP_HWID"@, who, "hwid"@, c.hwid)
}

/// Whether a finding is one on a component.
pub open spec fn is_on_comp(c: Comp, f: FindingView) -> bool {
    let who = "comp "@ + quote::quoted(c.name@);
    ||| laws::inertia_is_foreign(c) && is_finding(
        f,
        Tier::OutOfProfile,
        "P_INERTIA_ARITY"@,
        who + ": inertia tuple "@ + quote::quoted(c.inertial->0.inertia->0@)
            + " is not 6 values (the rotational inertia matrix is dropped on URDF export)"@,
    )
    ||| exists|i: int| 0 <= i < c.visual@.len() && is_on_visual(#[trigger] c.visual@[i], who, f)
    ||| exists|i: int| 0 <= i < c.collision@.len() && is_on_collision(#[trigger] c.collision@[i], who, f)
    ||| is_on_extras(c, who, f)
}

/// How many networks a document has, of all topologies.
pub open spec fn networks(doc: Hcdf) -> nat {
    doc.link@.len() + doc.bus@.len() + doc.chain@.len() + doc.star@.len() + doc.ring@.len()
        + doc.mesh@.len() + doc.tree@.len()
}

/// Whether a finding is one on what a document holds beside its joints and components.
pub open spec fn is_on_rest(doc: Hcdf, f: FindingView) -> bool {
    ||| is_left_out(f, "P_GROUP"@, "document"@, doc.group@.len(), "joint groups"@)
    ||| is_left_out(f, "P_STATE"@, "document"@, doc.state@.len(), "kinematic states"@)
    ||| is_left_out(f, "P_NETWORK"@, "document"@, findings::capped(networks(doc)), "networks"@)
    ||| doc.self_collision_disable is Some && is_left_out(
        f,
        "P_SELF_COLLISION_DISABLE"@,
        "document"@,
        1,
        "self-collision-disable blocks"@,
    )
    ||| doc.includes@.len() > 0 && is_finding(
        f,
        Tier::WithTransform,
        "P_INCLUDE"@,
        "document: "@ + text::decimal(doc.includes@.len())
            + " <include>(s); flatten with hcdf.io.flatten() before URDF export"@,
    )
    ||| findings::quat_poses(doc) > 0 && is_finding(
        f,
        Tier::WithTransform,
        "P_POSE_QUAT"@,
        text::decimal(findings::capped(findings::quat_poses(doc)))
            + " pose(s) use quat orientation; emitted as URDF rpy (rotation preserved exactly; URDF <origin> has no quaternion)"@,
    )
    ||| doc.body_frame == Some(BodyFrame::FRD) && is_finding(
        f,
        Tier::WithTransform,
        "P_BODY_FRD"@,
        "body-frame FRD: body poses and joint axes are converted to URDF FLU on export (lossless)"@,
    )
    ||| doc.world_frame == Some(WorldFrame::NED) && is_finding(
        f,
        Tier::WithTransform,
        "P_WORLD_NED"@,
        "world-frame NED: URDF is ENU; world-relative placements need conversion (note: to_urdf does not yet apply the world transform; body poses ARE converted)"@,
    )
}

/// Whether an issue is an error on the shape of the tree.
pub open spec fn is_on_shape_of_tree(issue: Issue) -> bool {
    issue.level is Error && (issue.code@ == "E_MULTI_PARENT"@ || issue.code@ == "E_CYCLE"@ || issue.code@
        == "E_SELF_JOINT"@ || issue.code@ == "E_LOOP_REF"@)
}

/// The names of the components that hang on no joint, in the order of the document.
pub open spec fn roots(doc: Hcdf) -> Seq<Seq<char>> {
    doc.comp@.filter(|c: Comp| !findings::is_attached(doc.joint@, c.name@)).map_values(
        |c: Comp| c.name@,
    )
}

/// Whether a finding is one on the tree of a document.
pub open spec fn is_on_tree(doc: Hcdf, issues: Seq<Issue>, f: FindingView) -> bool {
    ||| exists|i: int|
        0 <= i < issues.len() && is_on_shape_of_tree(#[trigger] issues[i]) && is_finding(
            f,
            Tier::OutOfProfile,
            "P_NOT_A_TREE"@,
            issues[i].code@ + ": "@ + issues[i].message@,
        )
    ||| doc.comp@.len() > 0 && roots(doc).len() == 0 && is_finding(
        f,
        Tier::OutOfProfile,
        "P_NO_ROOT"@,
        "no root comp (every comp is a joint child; a tree needs one root)"@,
    )
    ||| roots(doc).len() > 1 && is_finding(
        f,
        Tier::OutOfProfile,
        "P_MULTI_ROOT"@,
        findings::several_roots(roots(doc)),
    )
}

/// Whether a finding is one that a document is due.
pub open spec fn is_due(doc: Hcdf, issues: Seq<Issue>, f: FindingView) -> bool {
    ||| is_on_tree(doc, issues, f)
    ||| exists|i: int| 0 <= i < doc.joint@.len() && is_on_joint(#[trigger] doc.joint@[i], f)
    ||| exists|i: int| 0 <= i < doc.comp@.len() && is_on_comp(#[trigger] doc.comp@[i], f)
    ||| is_on_rest(doc, f)
}

// Proofs.

proof fn in_both(a: Seq<FindingView>, b: Seq<FindingView>, f: FindingView)
    ensures
        (a + b).contains(f) <==> a.contains(f) || b.contains(f),
{
    if a.contains(f) {
        let i = a.index_of(f);
        assert((a + b)[i] == f);
    }
    if b.contains(f) {
        let i = b.index_of(f);
        assert((a + b)[a.len() + i] == f);
    }
    if (a + b).contains(f) {
        let i = (a + b).index_of(f);
        if i < a.len() {
            assert(a[i] == f);
        } else {
            assert(b[i - a.len()] == f);
        }
    }
}

proof fn in_note(holds: bool, tier: Tier, code: Seq<char>, detail: Seq<char>, f: FindingView)
    ensures
        findings::note(holds, tier, code, detail).contains(f) <==> holds && is_finding(
            f,
            tier,
            code,
            detail,
        ),
{
    let list = findings::note(holds, tier, code, detail);
    if holds {
        assert(list[0] == FindingView { tier, code, detail });
        if is_finding(f, tier, code, detail) {
            assert(list[0] == f);
        }
    }
}

proof fn in_joint(j: Joint, f: FindingView)
    ensures
        findings::joint_notes(j).contains(f) <==> is_on_joint(j, f),
{
    let who = reasons::joint_name(j);
    assert(who == "joint "@ + quote::quoted_option(findings::option_view(j.name)));
    if let Some(jt) = j.type_ {
        laws::shared_types_are_those_of_urdf(jt);
    }
    in_note(j.loop_ is Some, Tier::OutOfProfile, "P_LOOP"@, who + ": loop-closure (URDF is tree-only, cannot express a closed kinematic loop)"@, f);
    in_note(laws::has_foreign_type(j), Tier::OutOfProfile, "P_JOINT_TYPE"@, who + ": type "@ + quote::quoted(j.type_->0.literal()) + " has no URDF equivalent"@, f);
    assert(findings::type_notes(j.type_, who) =~= findings::note(
        laws::has_foreign_type(j),
        Tier::OutOfProfile,
        "P_JOINT_TYPE"@,
        who + ": type "@ + quote::quoted(j.type_->0.literal()) + " has no URDF equivalent"@,
    ));
    in_note(j.axis2 is Some, Tier::OutOfProfile, "P_AXIS2"@, who + ": <axis2> (URDF has a single axis)"@, f);
    in_note(j.thread_pitch is Some, Tier::OutOfProfile, "P_THREAD_PITCH"@, who + ": thread_pitch (URDF has no screw joint)"@, f);
    in_note(j.limit is Some && j.limit->0.acceleration is Some, Tier::OutOfProfile, "P_LIMIT_FIELD"@, who + ": limit/acceleration (URDF limit has only lower/upper/effort/velocity)"@, f);
    in_note(j.limit is Some && j.limit->0.jerk is Some, Tier::OutOfProfile, "P_LIMIT_FIELD"@, who + ": limit/jerk (URDF limit has only lower/upper/effort/velocity)"@, f);
    in_note(j.limit is Some && j.limit->0.deceleration is Some, Tier::OutOfProfile, "P_LIMIT_FIELD"@, who + ": limit/deceleration (URDF limit has only lower/upper/effort/velocity)"@, f);
    in_note(j.dynamics is Some && j.dynamics->0.spring_stiffness is Some, Tier::OutOfProfile, "P_DYNAMICS_SPRING"@, who + ": dynamics/spring_stiffness (URDF dynamics has only damping/friction)"@, f);
    in_note(j.dynamics is Some && j.dynamics->0.spring_reference is Some, Tier::OutOfProfile, "P_DYNAMICS_SPRING"@, who + ": dynamics/spring_reference (URDF dynamics has only damping/friction)"@, f);
    in_note(j.extension is Some, Tier::OutOfProfile, "P_JOINT_EXTENSION"@, who + ": <extension> vendor data (no URDF home; joint extensions are not de-merged)"@, f);
    let p0 = Seq::<FindingView>::empty();
    let q1 = findings::note(j.loop_ is Some, Tier::OutOfProfile, "P_LOOP"@, who + ": loop-closure (URDF is tree-only, cannot express a closed kinematic loop)"@);
    in_both(p0, q1, f);
    let p1 = p0 + q1;
    let q2 = findings::type_notes(j.type_, who);
    in_both(p1, q2, f);
    let p2 = p1 + q2;
    let q3 = findings::note(j.axis2 is Some, Tier::OutOfProfile, "P_AXIS2"@, who + ": <axis2> (URDF has a single axis)"@);
    in_both(p2, q3, f);
    let p3 = p2 + q3;
    let q4 = findings::note(j.thread_pitch is Some, Tier::OutOfProfile, "P_THREAD_PITCH"@, who + ": thread_pitch (URDF has no screw joint)"@);
    in_both(p3, q4, f);
    let p4 = p3 + q4;
    let q5 = findings::note(j.limit is Some && j.limit->0.acceleration is Some, Tier::OutOfProfile, "P_LIMIT_FIELD"@, who + ": limit/acceleration (URDF limit has only lower/upper/effort/velocity)"@);
    in_both(p4, q5, f);
    let p5 = p4 + q5;
    let q6 = findings::note(j.limit is Some && j.limit->0.jerk is Some, Tier::OutOfProfile, "P_LIMIT_FIELD"@, who + ": limit/jerk (URDF limit has only lower/upper/effort/velocity)"@);
    in_both(p5, q6, f);
    let p6 = p5 + q6;
    let q7 = findings::note(j.limit is Some && j.limit->0.deceleration is Some, Tier::OutOfProfile, "P_LIMIT_FIELD"@, who + ": limit/deceleration (URDF limit has only lower/upper/effort/velocity)"@);
    in_both(p6, q7, f);
    let p7 = p6 + q7;
    let q8 = findings::note(j.dynamics is Some && j.dynamics->0.spring_stiffness is Some, Tier::OutOfProfile, "P_DYNAMICS_SPRING"@, who + ": dynamics/spring_stiffness (URDF dynamics has only damping/friction)"@);
    in_both(p7, q8, f);
    let p8 = p7 + q8;
    let q9 = findings::note(j.dynamics is Some && j.dynamics->0.spring_reference is Some, Tier::OutOfProfile, "P_DYNAMICS_SPRING"@, who + ": dynamics/spring_reference (URDF dynamics has only damping/friction)"@);
    in_both(p8, q9, f);
    let p9 = p8 + q9;
    let q10 = findings::note(j.extension is Some, Tier::OutOfProfile, "P_JOINT_EXTENSION"@, who + ": <extension> vendor data (no URDF home; joint extensions are not de-merged)"@);
    in_both(p9, q10, f);
    let p10 = p9 + q10;
}

proof fn in_joints(list: Seq<Joint>, n: nat, f: FindingView)
    requires
        n <= list.len(),
    ensures
        findings::joints_notes(list, n).contains(f) <==> exists|i: int|
            0 <= i < n && is_on_joint(#[trigger] list[i], f),
    decreases n,
{
    if n > 0 {
        in_joints(list, (n - 1) as nat, f);
        in_joint(list[n - 1], f);
        in_both(
            findings::joints_notes(list, (n - 1) as nat),
            findings::joint_notes(list[n - 1]),
            f,
        );
    }
}

proof fn in_shape(
    bad: Option<Seq<char>>,
    present: bool,
    who: Seq<char>,
    code: Seq<char>,
    without: Seq<char>,
    f: FindingView,
)
    ensures
        findings::shape_notes(bad, present, who, code, without).contains(f) <==> match bad {
            Some(name) => is_finding(
                f,
                Tier::OutOfProfile,
                "P_GEOMETRY"@,
                who + ": <"@ + name + "> has no URDF primitive"@,
            ),
            None => !present && is_finding(f, Tier::OutOfProfile, code, who + without),
        },
{
    match bad {
        Some(name) => {
            in_note(
                true,
                Tier::OutOfProfile,
                "P_GEOMETRY"@,
                who + ": <"@ + name + "> has no URDF primitive"@,
                f,
            );
        },
        None => {
            in_note(!present, Tier::OutOfProfile, code, who + without, f);
        },
    }
}

proof fn shape_words(who: Seq<char>, name: Seq<char>)
    ensures
        who + ": <"@ + name + "> has no URDF primitive"@ == who + ": <"@ + name + ">"@
            + " has no URDF primitive"@,
{
    reveal_strlit("> has no URDF primitive");
    reveal_strlit(">");
    reveal_strlit(" has no URDF primitive");
    assert("> has no URDF primitive"@ =~= ">"@ + " has no URDF primitive"@);
    assert(who + ": <"@ + name + "> has no URDF primitive"@ =~= who + ": <"@ + name + ">"@
        + " has no URDF primitive"@);
}

proof fn in_visual(v: Visual, of: Seq<char>, f: FindingView)
    ensures
        findings::visual_notes(v, of).contains(f) <==> is_on_visual(v, of, f),
{
    let who = of + " visual "@ + quote::quoted(v.name@);
    let toggle = who + ": toggle group "@ + quote::quoted_option(findings::option_view(v.toggle))
        + " (HCDF runtime show/hide grouping; no URDF home)"@;
    in_note(v.toggle is Some, Tier::OutOfProfile, "P_VISUAL_TOGGLE"@, toggle, f);
    in_both(
        findings::appearance_notes(v.appearance, who),
        findings::note(v.toggle is Some, Tier::OutOfProfile, "P_VISUAL_TOGGLE"@, toggle),
        f,
    );
    shape_words(who, "capsule"@);
    shape_words(who, "cone"@);
    shape_words(who, "ellipsoid"@);
    match v.appearance {
        VisualAppearance::Model { .. } => {
            in_note(
                true,
                Tier::WithTransform,
                "P_GLB_MODEL"@,
                who
                    + ": GLB <model>: geometry exports as a URDF mesh ref, but baked PBR/textures are not represented in URDF"@,
                f,
            );
        },
        VisualAppearance::Primitive { geometry, .. } => {
            in_shape(
                findings::optional_visual_bad_shape(geometry),
                geometry is Some && findings::visual_has_shape(geometry->0),
                who,
                "P_VISUAL_NO_GEOMETRY"@,
                ": neither a GLB <model> nor a URDF primitive, dropped on export"@,
                f,
            );
        },
    }
}

proof fn in_collision(c: Collision, of: Seq<char>, f: FindingView)
    ensures
        findings::collision_notes(c, of).contains(f) <==> is_on_collision(c, of, f),
{
    let who = of + " collision "@ + quote::quoted_option(findings::option_view(c.name));
    let surface = who
        + ": <surface> contact physics (no URDF core home; lives in <gazebo> at sim time)"@;
    in_note(c.surface is Some, Tier::OutOfProfile, "P_SURFACE"@, surface, f);
    shape_words(who, "capsule"@);
    shape_words(who, "cone"@);
    shape_words(who, "ellipsoid"@);
    let bad = findings::optional_collision_bad_shape(c.geometry);
    let present = c.geometry is Some && findings::collision_has_shape(c.geometry->0);
    let without = ": no URDF-representable geometry, dropped on export"@;
    in_shape(bad, present, who, "P_COLLISION_NO_GEOMETRY"@, without, f);
    in_both(
        findings::shape_notes(bad, present, who, "P_COLLISION_NO_GEOMETRY"@, without),
        findings::note(c.surface is Some, Tier::OutOfProfile, "P_SURFACE"@, surface),
        f,
    );
}

proof fn in_visuals(list: Seq<Visual>, of: Seq<char>, n: nat, f: FindingView)
    requires
        n <= list.len(),
    ensures
        findings::visuals_notes(list, of, n).contains(f) <==> exists|i: int|
            0 <= i < n && is_on_visual(#[trigger] list[i], of, f),
    decreases n,
{
    if n > 0 {
        in_visuals(list, of, (n - 1) as nat, f);
        in_visual(list[n - 1], of, f);
        in_both(
            findings::visuals_notes(list, of, (n - 1) as nat),
            findings::visual_notes(list[n - 1], of),
            f,
        );
    }
}

proof fn in_collisions(list: Seq<Collision>, of: Seq<char>, n: nat, f: FindingView)
    requires
        n <= list.len(),
    ensures
        findings::collisions_notes(list, of, n).contains(f) <==> exists|i: int|
            0 <= i < n && is_on_collision(#[trigger] list[i], of, f),
    decreases n,
{
    if n > 0 {
        in_collisions(list, of, (n - 1) as nat, f);
        in_collision(list[n - 1], of, f);
        in_both(
            findings::collisions_notes(list, of, (n - 1) as nat),
            findings::collision_notes(list[n - 1], of),
            f,
        );
    }
}

proof fn in_dropped(code: Seq<char>, who: Seq<char>, n: nat, what: Seq<char>, f: FindingView)
    ensures
        findings::dropped_notes(code, who, n, what).contains(f) <==> is_left_out(f, code, who, n, what),
{
    in_note(
        n > 0,
        Tier::OutOfProfile,
        code,
        who + ": "@ + text::decimal(n) + " "@ + what + " (HCDF-only; no URDF home)"@,
        f,
    );
}

proof fn in_metadata(
    code: Seq<char>,
    who: Seq<char>,
    what: Seq<char>,
    value: Option<String>,
    f: FindingView,
)
    ensures
        findings::metadata_notes(code, who, what, value).contains(f) <==> is_description_left_out(
            f,
            code,
            who,
            what,
            value,
        ),
{
    if let Some(v) = value {
        in_note(
            true,
            Tier::OutOfProfile,
            code,
            who + ": "@ + what + "="@ + quote::quoted(v@) + " (HCDF-only metadata; no URDF home)"@,
            f,
        );
    }
}

proof fn in_role(c: Comp, who: Seq<char>, f: FindingView)
    ensures
        findings::role_notes(c.role, who).contains(f) <==> c.role is Some && is_finding(
            f,
            Tier::OutOfProfile,
            "P_COMP_ROLE"@,
            who + ": role="@ + quote::quoted_enum("CompRole"@, c.role->0.literal())
                + " (HCDF-only metadata; no URDF home)"@,
        ),
{
    if let Some(role) = c.role {
        in_note(
            true,
            Tier::OutOfProfile,
            "P_COMP_ROLE"@,
            who + ": role="@ + quote::quoted_enum("CompRole"@, role.literal())
                + " (HCDF-only metadata; no URDF home)"@,
            f,
        );
    }
}

proof fn in_extras(c: Comp, who: Seq<char>, f: FindingView)
    ensures
        findings::comp_dropped_notes(c, who).contains(f) <==> is_on_extras(c, who, f),
{
    in_dropped("P_COMP_SENSOR"@, who, c.sensor@.len(), "sensors"@, f);
    in_dropped("P_COMP_MOTOR"@, who, c.motor@.len(), "motors"@, f);
    in_dropped("P_COMP_HMI"@, who, c.hmi@.len(), "HMI elements"@, f);
    in_dropped("P_COMP_DYNAMIC_SURFACE"@, who, c.dynamic_surface@.len(), "dynamic surfaces"@, f);
    in_dropped("P_COMP_POWER_SOURCE"@, who, c.power_source@.len(), "power sources"@, f);
    in_dropped("P_COMP_PORT"@, who, c.port@.len(), "ports"@, f);
    in_dropped("P_COMP_ANTENNA"@, who, c.antenna@.len(), "antennas"@, f);
    in_dropped("P_COMP_FRAME"@, who, c.frame@.len(), "coordinate frames"@, f);
    in_dropped("P_COMP_EXTENSION"@, who, c.extension@.len(), "vendor extensions"@, f);
    in_metadata("P_COMP_STRUCT_TYPE"@, who, "struct-type"@, c.struct_type, f);
    in_metadata("P_COMP_IP_RATING"@, who, "ip-rating"@, c.ip_rating, f);
    in_role(c, who, f);
    in_metadata("P_COMP_HWID"@, who, "hwid"@, c.hwid, f);
    let p0 = Seq::<FindingView>::empty();
    let q1 = findings::dropped_notes("P_COMP_SENSOR"@, who, c.sensor@.len(), "sensors"@);
    in_both(p0, q1, f);
    let p1 = p0 + q1;
    let q2 = findings::dropped_notes("P_COMP_MOTOR"@, who, c.motor@.len(), "motors"@);
    in_both(p1, q2, f);
    let p2 = p1 + q2;
    let q3 = findings::dropped_notes("P_COMP_HMI"@, who, c.hmi@.len(), "HMI elements"@);
    in_both(p2, q3, f);
    let p3 = p2 + q3;
    let q4 = findings::dropped_notes("P_COMP_DYNAMIC_SURFACE"@, who, c.dynamic_surface@.len(), "dynamic surfaces"@);
    in_both(p3, q4, f);
    let p4 = p3 + q4;
    let q5 = findings::dropped_notes("P_COMP_POWER_SOURCE"@, who, c.power_source@.len(), "power sources"@);
    in_both(p4, q5, f);
    let p5 = p4 + q5;
    let q6 = findings::dropped_notes("P_COMP_PORT"@, who, c.port@.len(), "ports"@);
    in_both(p5, q6, f);
    let p6 = p5 + q6;
    let q7 = findings::dropped_notes("P_COMP_ANTENNA"@, who, c.antenna@.len(), "antennas"@);
    in_both(p6, q7, f);
    let p7 = p6 + q7;
    let q8 = findings::dropped_notes("P_COMP_FRAME"@, who, c.frame@.len(), "coordinate frames"@);
    in_both(p7, q8, f);
    let p8 = p7 + q8;
    let q9 = findings::dropped_notes("P_COMP_EXTENSION"@, who, c.extension@.len(), "vendor extensions"@);
    in_both(p8, q9, f);
    let p9 = p8 + q9;
    let q10 = findings::metadata_notes("P_COMP_STRUCT_TYPE"@, who, "struct-type"@, c.struct_type);
    in_both(p9, q10, f);
    let p10 = p9 + q10;
    let q11 = findings::metadata_notes("P_COMP_IP_RATING"@, who, "ip-rating"@, c.ip_rating);
    in_both(p10, q11, f);
    let p11 = p10 + q11;
    let q12 = findings::role_notes(c.role, who);
    in_both(p11, q12, f);
    let p12 = p11 + q12;
    let q13 = findings::metadata_notes("P_COMP_HWID"@, who, "hwid"@, c.hwid);
    in_both(p12, q13, f);
    let p13 = p12 + q13;
}

proof fn in_comp(c: Comp, f: FindingView)
    ensures
        findings::comp_notes(c).contains(f) <==> is_on_comp(c, f),
{
    let who = "comp "@ + quote::quoted(c.name@);
    let inertia = findings::inertia_notes(c.inertial, who);
    if c.inertial is Some && c.inertial->0.inertia is Some {
        in_note(
            findings::word_count(c.inertial->0.inertia->0@) != 6,
            Tier::OutOfProfile,
            "P_INERTIA_ARITY"@,
            who + ": inertia tuple "@ + quote::quoted(c.inertial->0.inertia->0@)
                + " is not 6 values (the rotational inertia matrix is dropped on URDF export)"@,
            f,
        );
    }
    in_visuals(c.visual@, who, c.visual@.len(), f);
    in_collisions(c.collision@, who, c.collision@.len(), f);
    in_extras(c, who, f);
    let visuals = findings::visuals_notes(c.visual@, who, c.visual@.len());
    let collisions = findings::collisions_notes(c.collision@, who, c.collision@.len());
    in_both(inertia, visuals, f);
    in_both(inertia + visuals, collisions, f);
    in_both(inertia + visuals + collisions, findings::comp_dropped_notes(c, who), f);
}

proof fn in_comps(list: Seq<Comp>, n: nat, f: FindingView)
    requires
        n <= list.len(),
    ensures
        findings::comps_notes(list, n).contains(f) <==> exists|i: int|
            0 <= i < n && is_on_comp(#[trigger] list[i], f),
    decreases n,
{
    if n > 0 {
        in_comps(list, (n - 1) as nat, f);
        in_comp(list[n - 1], f);
        in_both(
            findings::comps_notes(list, (n - 1) as nat),
            findings::comp_notes(list[n - 1]),
            f,
        );
    }
}

proof fn in_rest(doc: Hcdf, f: FindingView)
    ensures
        findings::top_notes(doc).contains(f) || findings::frame_notes(doc).contains(f) <==> is_on_rest(
            doc,
            f,
        ),
{
    let blocks: nat = if doc.self_collision_disable is Some {
        1
    } else {
        0
    };
    let includes = "document: "@ + text::decimal(doc.includes@.len())
        + " <include>(s); flatten with hcdf.io.flatten() before URDF export"@;
    let quats = text::decimal(findings::capped(findings::quat_poses(doc)))
        + " pose(s) use quat orientation; emitted as URDF rpy (rotation preserved exactly; URDF <origin> has no quaternion)"@;
    let frd = "body-frame FRD: body poses and joint axes are converted to URDF FLU on export (lossless)"@;
    let ned = "world-frame NED: URDF is ENU; world-relative placements need conversion (note: to_urdf does not yet apply the world transform; body poses ARE converted)"@;
    in_dropped("P_GROUP"@, "document"@, doc.group@.len(), "joint groups"@, f);
    in_dropped("P_STATE"@, "document"@, doc.state@.len(), "kinematic states"@, f);
    in_dropped("P_NETWORK"@, "document"@, findings::capped(networks(doc)), "networks"@, f);
    in_dropped("P_SELF_COLLISION_DISABLE"@, "document"@, blocks, "self-collision-disable blocks"@, f);
    in_note(doc.includes@.len() > 0, Tier::WithTransform, "P_INCLUDE"@, includes, f);
    in_note(findings::quat_poses(doc) > 0, Tier::WithTransform, "P_POSE_QUAT"@, quats, f);
    in_note(doc.body_frame == Some(BodyFrame::FRD), Tier::WithTransform, "P_BODY_FRD"@, frd, f);
    in_note(doc.world_frame == Some(WorldFrame::NED), Tier::WithTransform, "P_WORLD_NED"@, ned, f);
    in_both(
        findings::note(doc.body_frame == Some(BodyFrame::FRD), Tier::WithTransform, "P_BODY_FRD"@, frd),
        findings::note(doc.world_frame == Some(WorldFrame::NED), Tier::WithTransform, "P_WORLD_NED"@, ned),
        f,
    );
    assert(networks(doc) == findings::network_count(doc));
    let p0 = Seq::<FindingView>::empty();
    let q1 = findings::dropped_notes("P_GROUP"@, "document"@, doc.group@.len(), "joint groups"@);
    in_both(p0, q1, f);
    let p1 = p0 + q1;
    let q2 = findings::dropped_notes("P_STATE"@, "document"@, doc.state@.len(), "kinematic states"@);
    in_both(p1, q2, f);
    let p2 = p1 + q2;
    let q3 = findings::dropped_notes("P_NETWORK"@, "document"@, findings::capped(networks(doc)), "networks"@);
    in_both(p2, q3, f);
    let p3 = p2 + q3;
    let q4 = findings::dropped_notes("P_SELF_COLLISION_DISABLE"@, "document"@, blocks, "self-collision-disable blocks"@);
    in_both(p3, q4, f);
    let p4 = p3 + q4;
    let q5 = findings::note(doc.includes@.len() > 0, Tier::WithTransform, "P_INCLUDE"@, includes);
    in_both(p4, q5, f);
    let p5 = p4 + q5;
    let q6 = findings::note(findings::quat_poses(doc) > 0, Tier::WithTransform, "P_POSE_QUAT"@, quats);
    in_both(p5, q6, f);
    let p6 = p5 + q6;
}

proof fn in_tree(issues: Seq<Issue>, n: nat, f: FindingView)
    requires
        n <= issues.len(),
    ensures
        findings::tree_notes(issues, n).contains(f) <==> exists|i: int|
            0 <= i < n && is_on_shape_of_tree(#[trigger] issues[i]) && is_finding(
                f,
                Tier::OutOfProfile,
                "P_NOT_A_TREE"@,
                issues[i].code@ + ": "@ + issues[i].message@,
            ),
    decreases n,
{
    if n > 0 {
        let last = issues[n - 1];
        let words = last.code@ + ": "@ + last.message@;
        in_tree(issues, (n - 1) as nat, f);
        in_note(findings::breaks_the_tree(last), Tier::OutOfProfile, "P_NOT_A_TREE"@, words, f);
        in_both(
            findings::tree_notes(issues, (n - 1) as nat),
            findings::note(
                findings::breaks_the_tree(last),
                Tier::OutOfProfile,
                "P_NOT_A_TREE"@,
                words,
            ),
            f,
        );
        assert(findings::breaks_the_tree(last) == is_on_shape_of_tree(last));
    }
}

proof fn roots_are_filtered(doc: Hcdf, n: nat)
    requires
        n <= doc.comp@.len(),
    ensures
        findings::root_names(doc.comp@, doc.joint@, n) == doc.comp@.take(n as int).filter(
            |c: Comp| !findings::is_attached(doc.joint@, c.name@),
        ).map_values(|c: Comp| c.name@),
    decreases n,
{
    let free = |c: Comp| !findings::is_attached(doc.joint@, c.name@);
    let name = |c: Comp| c.name@;
    reveal(Seq::filter);
    if n == 0 {
        assert(doc.comp@.take(0).filter(free).map_values(name) =~= Seq::empty());
    } else {
        roots_are_filtered(doc, (n - 1) as nat);
        let upto = doc.comp@.take(n as int);
        assert(upto.drop_last() =~= doc.comp@.take(n - 1));
        assert(upto.last() == doc.comp@[n - 1]);
        assert(upto.filter(free).map_values(name) =~= (if free(doc.comp@[n - 1]) {
            doc.comp@.take(n - 1).filter(free).map_values(name).push(name(doc.comp@[n - 1]))
        } else {
            doc.comp@.take(n - 1).filter(free).map_values(name)
        }));
    }
}

proof fn in_roots(doc: Hcdf, f: FindingView)
    ensures
        findings::root_notes(doc).contains(f) <==> (doc.comp@.len() > 0 && roots(doc).len() == 0
            && is_finding(
            f,
            Tier::OutOfProfile,
            "P_NO_ROOT"@,
            "no root comp (every comp is a joint child; a tree needs one root)"@,
        )) || (roots(doc).len() > 1 && is_finding(
            f,
            Tier::OutOfProfile,
            "P_MULTI_ROOT"@,
            findings::several_roots(roots(doc)),
        )),
{
    roots_are_filtered(doc, doc.comp@.len());
    assert(doc.comp@.take(doc.comp@.len() as int) =~= doc.comp@);
    in_note(
        true,
        Tier::OutOfProfile,
        "P_NO_ROOT"@,
        "no root comp (every comp is a joint child; a tree needs one root)"@,
        f,
    );
    in_note(
        roots(doc).len() > 1,
        Tier::OutOfProfile,
        "P_MULTI_ROOT"@,
        findings::several_roots(roots(doc)),
        f,
    );
}

/// The findings on a document are exactly those that it is due: one for each thing that an export drops or
/// converts, with its tier, its code and its words.
pub proof fn findings_are_those_due(doc: Hcdf, issues: Seq<Issue>, f: FindingView)
    ensures
        findings::document_notes(doc, issues).contains(f) <==> is_due(doc, issues, f),
{
    let tree = findings::tree_notes(issues, issues.len());
    let roots = findings::root_notes(doc);
    let frames = findings::frame_notes(doc);
    let joints = findings::joints_notes(doc.joint@, doc.joint@.len());
    let comps = findings::comps_notes(doc.comp@, doc.comp@.len());
    let top = findings::top_notes(doc);
    in_tree(issues, issues.len(), f);
    in_roots(doc, f);
    in_joints(doc.joint@, doc.joint@.len(), f);
    in_comps(doc.comp@, doc.comp@.len(), f);
    in_rest(doc, f);
    in_both(tree, roots, f);
    in_both(tree + roots, frames, f);
    in_both(tree + roots + frames, joints, f);
    in_both(tree + roots + frames + joints, comps, f);
    in_both(tree + roots + frames + joints + comps, top, f);
}

} // verus!
