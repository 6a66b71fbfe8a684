//! Which representations of a scope lead to things that exist.
use vstd::prelude::*;
use crate::faults;
use crate::text;
use super::connectivity as canonical;
use super::conversion::Converted;
use super::convert_document;
use super::selectors;
use super::sound::is_sound_document;
use super::sound_laws;
use super::{Comp, Hcdf};

verus! {

/// Whether a component is the only one of its name.
pub open spec fn is_only_component(document: Hcdf, at: int, name: Seq<char>) -> bool {
    0 <= at < document.comp@.len() && document.comp@[at].name@ == name && forall|k: int|
        0 <= k < document.comp@.len() && (#[trigger] document.comp@[k]).name@ == name ==> k == at
}

/// Whether a frame is the only one of its name on a component.
pub open spec fn is_only_frame(component: Comp, at: int, name: Seq<char>) -> bool {
    0 <= at < component.frame@.len() && component.frame@[at].name@ == name && forall|k: int|
        0 <= k < component.frame@.len() && (#[trigger] component.frame@[k]).name@ == name ==> k == at
}

/// Whether a visual is the only one of its name on a component.
pub open spec fn is_only_visual(component: Comp, at: int, name: Seq<char>) -> bool {
    0 <= at < component.visual@.len() && component.visual@[at].name@ == name && forall|k: int|
        0 <= k < component.visual@.len() && (#[trigger] component.visual@[k]).name@ == name ==> k == at
}

/// Whether an assembly is the only one of its name.
pub open spec fn is_only_assembly(
    list: Seq<canonical::PhysicalAssembly>,
    at: int,
    name: Seq<char>,
) -> bool {
    0 <= at < list.len() && list[at].name@ == name && forall|k: int|
        0 <= k < list.len() && (#[trigger] list[k]).name@ == name ==> k == at
}

/// Whether a reference goes to another document, where nothing is looked for.
pub open spec fn goes_elsewhere(scope: canonical::ReferenceScope) -> bool {
    scope is Instance
}

/// Whether a frame leads somewhere: to the world, to another document, or to the only component, and the
/// only frame on it, of the names that it has.
pub open spec fn frame_leads(document: Hcdf, frame: canonical::RouteFrameRef) -> bool {
    match frame {
        canonical::RouteFrameRef::World => true,
        canonical::RouteFrameRef::ComponentOrigin { component } => goes_elsewhere(component.scope)
            || exists|at: int| #[trigger] is_only_component(document, at, component.component@),
        canonical::RouteFrameRef::ComponentFrame { component, frame } => goes_elsewhere(
            component.scope,
        ) || exists|at: int, f: int|
            #![trigger is_only_component(document, at, component.component@), is_only_frame(
                document.comp@[at],
                f,
                frame@,
            )]
            is_only_component(document, at, component.component@) && is_only_frame(
                document.comp@[at],
                f,
                frame@,
            ),
    }
}

/// Whether the root of a model part leads somewhere: to another document, to the only visual of its name on
/// the only component of its name, which shows a model, or to the only assembly of its name, which is shown
/// by a model.
pub open spec fn root_leads(
    document: Hcdf,
    scope: canonical::ConnectivityScope,
    root: canonical::ModelRootRef,
) -> bool {
    match root {
        canonical::ModelRootRef::ComponentVisual { component, visual } => goes_elsewhere(
            component.scope,
        ) || exists|at: int, v: int|
            #![trigger is_only_component(document, at, component.component@), is_only_visual(
                document.comp@[at],
                v,
                visual@,
            )]
            is_only_component(document, at, component.component@) && is_only_visual(
                document.comp@[at],
                v,
                visual@,
            ) && document.comp@[at].visual@[v].appearance is Model,
        canonical::ModelRootRef::AssemblyModel { assembly } => goes_elsewhere(assembly.scope)
            || exists|at: int| #[trigger]
            is_only_assembly(scope.assemblies@, at, assembly.assembly@) && (
            scope.assemblies@[at].representation matches Some(shown) && shown is Model),
    }
}

/// Whether a representation leads to things that exist.
pub open spec fn leads(
    document: Hcdf,
    scope: canonical::ConnectivityScope,
    representation: Option<canonical::Representation>,
) -> bool {
    match representation {
        None => true,
        Some(canonical::Representation::Primitive { placement, .. }) => frame_leads(
            document,
            placement.frame,
        ),
        Some(canonical::Representation::Model { placement, .. }) => frame_leads(
            document,
            placement.frame,
        ),
        Some(canonical::Representation::ModelPart(part)) => !text::is_blank(part.node_path@)
            && root_leads(document, scope, part.model_root),
        Some(canonical::Representation::DerivedRoute(route)) => forall|i: int|
            0 <= i < route.waypoints@.len() ==> frame_leads(
                document,
                (#[trigger] route.waypoints@[i]).frame,
            ),
    }
}

proof fn only_component(document: Hcdf, name: Seq<char>)
    ensures
        match selectors::the_only(document.comp@, selectors::component_named(name)) {
            Some(at) => is_only_component(document, at, name),
            None => forall|at: int| !(#[trigger] is_only_component(document, at, name)),
        },
{
    let list = document.comp@;
    let named = selectors::component_named(name);
    assert forall|at: int| #[trigger] is_only_component(document, at, name) == selectors::is_only(
        list,
        named,
        at,
    ) by {
        if is_only_component(document, at, name) {
            assert forall|j: int| 0 <= j < list.len() && j != at implies !named(#[trigger] list[j]) by {
            }
        }
        if selectors::is_only(list, named, at) {
            assert forall|k: int| 0 <= k < list.len() && (#[trigger] list[k]).name@ == name implies k
                == at by {
                assert(named(list[k]));
            }
        }
    }
    if let Some(at) = selectors::the_only(list, named) {
        assert(selectors::is_only(list, named, at));
        assert(is_only_component(document, at, name));
    } else {
        assert forall|at: int| !(#[trigger] is_only_component(document, at, name)) by {
            assert(!selectors::is_only(list, named, at));
        }
    }
}

proof fn only_frame(component: Comp, name: Seq<char>)
    ensures
        match selectors::the_only(component.frame@, selectors::frame_named(name)) {
            Some(at) => is_only_frame(component, at, name),
            None => forall|at: int| !(#[trigger] is_only_frame(component, at, name)),
        },
{
    let items = component.frame@;
    let named = selectors::frame_named(name);
    assert forall|at: int| #[trigger] is_only_frame(component, at, name) == selectors::is_only(
        items,
        named,
        at,
    ) by {
        if is_only_frame(component, at, name) {
            assert forall|j: int| 0 <= j < items.len() && j != at implies !named(#[trigger] items[j]) by {
            }
        }
        if selectors::is_only(items, named, at) {
            assert forall|k: int| 0 <= k < items.len() && (#[trigger] items[k]).name@ == name implies k
                == at by {
                assert(named(items[k]));
            }
        }
    }
    if let Some(at) = selectors::the_only(items, named) {
        assert(selectors::is_only(items, named, at));
        assert(is_only_frame(component, at, name));
    } else {
        assert forall|at: int| !(#[trigger] is_only_frame(component, at, name)) by {
            assert(!selectors::is_only(items, named, at));
        }
    }
}

proof fn only_visual(component: Comp, name: Seq<char>)
    ensures
        match selectors::the_only(component.visual@, selectors::visual_named(name)) {
            Some(at) => is_only_visual(component, at, name),
            None => forall|at: int| !(#[trigger] is_only_visual(component, at, name)),
        },
{
    let items = component.visual@;
    let named = selectors::visual_named(name);
    assert forall|at: int| #[trigger] is_only_visual(component, at, name) == selectors::is_only(
        items,
        named,
        at,
    ) by {
        if is_only_visual(component, at, name) {
            assert forall|j: int| 0 <= j < items.len() && j != at implies !named(#[trigger] items[j]) by {
            }
        }
        if selectors::is_only(items, named, at) {
            assert forall|k: int| 0 <= k < items.len() && (#[trigger] items[k]).name@ == name implies k
                == at by {
                assert(named(items[k]));
            }
        }
    }
    if let Some(at) = selectors::the_only(items, named) {
        assert(selectors::is_only(items, named, at));
        assert(is_only_visual(component, at, name));
    } else {
        assert forall|at: int| !(#[trigger] is_only_visual(component, at, name)) by {
            assert(!selectors::is_only(items, named, at));
        }
    }
}

proof fn only_assembly(list: Seq<canonical::PhysicalAssembly>, name: Seq<char>)
    ensures
        match selectors::the_only(list, selectors::assembly_named(name)) {
            Some(at) => is_only_assembly(list, at, name),
            None => forall|at: int| !(#[trigger] is_only_assembly(list, at, name)),
        },
{
    let items = list;
    let named = selectors::assembly_named(name);
    assert forall|at: int| #[trigger] is_only_assembly(list, at, name) == selectors::is_only(
        items,
        named,
        at,
    ) by {
        if is_only_assembly(list, at, name) {
            assert forall|j: int| 0 <= j < items.len() && j != at implies !named(#[trigger] items[j]) by {
            }
        }
        if selectors::is_only(items, named, at) {
            assert forall|k: int| 0 <= k < items.len() && (#[trigger] items[k]).name@ == name implies k
                == at by {
                assert(named(items[k]));
            }
        }
    }
    if let Some(at) = selectors::the_only(items, named) {
        assert(selectors::is_only(items, named, at));
        assert(is_only_assembly(list, at, name));
    } else {
        assert forall|at: int| !(#[trigger] is_only_assembly(list, at, name)) by {
            assert(!selectors::is_only(items, named, at));
        }
    }
}

proof fn frame_fails_where_it_leads_nowhere(document: Hcdf, frame: canonical::RouteFrameRef)
    ensures
        forall|path: Seq<char>| #[trigger]
            selectors::structural_frame_due(document, frame, path) is None <==> frame_leads(
                document,
                frame,
            ),
{
    match frame {
        canonical::RouteFrameRef::World => {},
        canonical::RouteFrameRef::ComponentOrigin { component } => {
            only_component(document, component.component@);
        },
        canonical::RouteFrameRef::ComponentFrame { component, frame: name } => {
            only_component(document, component.component@);
            if let Some(at) = selectors::the_only(
                document.comp@,
                selectors::component_named(component.component@),
            ) {
                only_frame(document.comp@[at], name@);
                if frame_leads(document, frame) && !goes_elsewhere(component.scope) {
                    let (a, f) = choose|a: int, f: int|
                        #![trigger is_only_component(document, a, component.component@), is_only_frame(
                            document.comp@[a],
                            f,
                            name@,
                        )]
                        is_only_component(document, a, component.component@) && is_only_frame(
                            document.comp@[a],
                            f,
                            name@,
                        );
                    assert(a == at);
                }
            }
        },
    }
}

proof fn root_fails_where_it_leads_nowhere(
    document: Hcdf,
    scope: canonical::ConnectivityScope,
    part: canonical::ModelPartRepresentation,
)
    ensures
        forall|path: Seq<char>| #[trigger]
            selectors::model_part_due(document, scope, part, path) is None <==> !text::is_blank(
                part.node_path@,
            ) && root_leads(document, scope, part.model_root),
{
    match part.model_root {
        canonical::ModelRootRef::ComponentVisual { component, visual } => {
            only_component(document, component.component@);
            if let Some(at) = selectors::the_only(
                document.comp@,
                selectors::component_named(component.component@),
            ) {
                only_visual(document.comp@[at], visual@);
                if root_leads(document, scope, part.model_root) && !goes_elsewhere(component.scope) {
                    let (a, v) = choose|a: int, v: int|
                        #![trigger is_only_component(document, a, component.component@), is_only_visual(
                            document.comp@[a],
                            v,
                            visual@,
                        )]
                        is_only_component(document, a, component.component@) && is_only_visual(
                            document.comp@[a],
                            v,
                            visual@,
                        ) && document.comp@[a].visual@[v].appearance is Model;
                    assert(a == at);
                }
            }
        },
        canonical::ModelRootRef::AssemblyModel { assembly } => {
            only_assembly(scope.assemblies@, assembly.assembly@);
            if root_leads(document, scope, part.model_root) && !goes_elsewhere(assembly.scope) {
                let a = choose|a: int| #[trigger]
                    is_only_assembly(scope.assemblies@, a, assembly.assembly@) && (
                    scope.assemblies@[a].representation matches Some(shown) && shown is Model);
                assert(is_only_assembly(scope.assemblies@, a, assembly.assembly@));
            }
        },
    }
}

proof fn representation_fails_where_it_leads_nowhere(
    document: Hcdf,
    scope: canonical::ConnectivityScope,
    representation: Option<canonical::Representation>,
)
    ensures
        forall|path: Seq<char>| #[trigger]
            selectors::representation_due(document, scope, representation, path) is None <==> leads(
                document,
                scope,
                representation,
            ),
{
    match representation {
        None => {},
        Some(canonical::Representation::Primitive { placement, .. }) => {
            frame_fails_where_it_leads_nowhere(document, placement.frame);
        },
        Some(canonical::Representation::Model { placement, .. }) => {
            frame_fails_where_it_leads_nowhere(document, placement.frame);
        },
        Some(canonical::Representation::ModelPart(part)) => {
            root_fails_where_it_leads_nowhere(document, scope, part);
        },
        Some(canonical::Representation::DerivedRoute(route)) => {
            let points = route.waypoints@;
            assert forall|path: Seq<char>| #[trigger]
                selectors::representation_due(document, scope, representation, path) is None
                    <==> leads(document, scope, representation) by {
                let due = selectors::route_due(document, points, path);
                faults::no_failure_means_none(points.len(), due);
                assert forall|i: int| 0 <= i < points.len() implies (#[trigger] due(i) is None
                    <==> frame_leads(document, points[i].frame)) by {
                    frame_fails_where_it_leads_nowhere(document, points[i].frame);
                }
                if leads(document, scope, representation) {
                    assert forall|i: int| 0 <= i < points.len() implies #[trigger] due(i) is None by {
                        assert(frame_leads(document, points[i].frame));
                    }
                }
                if forall|i: int| 0 <= i < points.len() ==> #[trigger] due(i) is None {
                    assert forall|i: int| 0 <= i < points.len() implies frame_leads(
                        document,
                        (#[trigger] points[i]).frame,
                    ) by {
                        assert(due(i) is None);
                    }
                }
            }
        },
    }
}

/// Whether each position of a list leads to things that exist.
pub open spec fn positions_lead(
    document: Hcdf,
    scope: canonical::ConnectivityScope,
    x: Seq<canonical::Position>,
) -> bool {
    forall|i: int| 0 <= i < x.len() ==> leads(document, scope, (#[trigger] x[i]).representation)
}

proof fn positions_fail_where_one_leads_nowhere(
    document: Hcdf,
    scope: canonical::ConnectivityScope,
    x: Seq<canonical::Position>,
)
    ensures
        forall|base: Seq<char>|
            faults::first_failure(
                x.len(),
                #[trigger] selectors::positions_due(document, scope, x, base),
            ) is None <==> positions_lead(document, scope, x),
{
    assert forall|base: Seq<char>|
        faults::first_failure(x.len(), #[trigger] selectors::positions_due(document, scope, x, base)) is None
            <==> positions_lead(document, scope, x) by {
        let due = selectors::positions_due(document, scope, x, base);
        faults::no_failure_means_none(x.len(), due);
        assert forall|i: int| 0 <= i < x.len() implies (#[trigger] due(i) is None <==> leads(document, scope, x[i].representation)) by {
            representation_fails_where_it_leads_nowhere(document, scope, x[i].representation);
        }
        if positions_lead(document, scope, x) {
            assert forall|i: int| 0 <= i < x.len() implies #[trigger] due(i) is None by {
                assert(leads(document, scope, x[i].representation));
            }
        }
        if forall|i: int| 0 <= i < x.len() ==> #[trigger] due(i) is None {
            assert forall|i: int| 0 <= i < x.len() implies leads(document, scope, (#[trigger] x[i]).representation) by {
                assert(due(i) is None);
            }
        }
    }
}

/// Whether a connector and its positions lead to things that exist.
pub open spec fn connector_leads(
    document: Hcdf,
    scope: canonical::ConnectivityScope,
    x: canonical::Connector,
) -> bool {
    leads(document, scope, x.representation) && positions_lead(document, scope, x.positions@)
}

proof fn connector_fails_where_it_leads_nowhere(
    document: Hcdf,
    scope: canonical::ConnectivityScope,
    x: canonical::Connector,
)
    ensures
        forall|base: Seq<char>| #[trigger]
            selectors::connector_due(document, scope, x, base) is None <==> connector_leads(
                document,
                scope,
                x,
            ),
{
    representation_fails_where_it_leads_nowhere(document, scope, x.representation);
    positions_fail_where_one_leads_nowhere(document, scope, x.positions@);
}

/// Whether each connector of a list leads to things that exist.
pub open spec fn connectors_lead(
    document: Hcdf,
    scope: canonical::ConnectivityScope,
    x: Seq<canonical::Connector>,
) -> bool {
    forall|i: int| 0 <= i < x.len() ==> connector_leads(document, scope, (#[trigger] x[i]))
}

proof fn connectors_fail_where_one_leads_nowhere(
    document: Hcdf,
    scope: canonical::ConnectivityScope,
    x: Seq<canonical::Connector>,
)
    ensures
        forall|base: Seq<char>|
            faults::first_failure(
                x.len(),
                #[trigger] selectors::connectors_due(document, scope, x, base),
            ) is None <==> connectors_lead(document, scope, x),
{
    assert forall|base: Seq<char>|
        faults::first_failure(x.len(), #[trigger] selectors::connectors_due(document, scope, x, base)) is None
            <==> connectors_lead(document, scope, x) by {
        let due = selectors::connectors_due(document, scope, x, base);
        faults::no_failure_means_none(x.len(), due);
        assert forall|i: int| 0 <= i < x.len() implies (#[trigger] due(i) is None <==> connector_leads(document, scope, x[i])) by {
            connector_fails_where_it_leads_nowhere(document, scope, x[i]);
        }
        if connectors_lead(document, scope, x) {
            assert forall|i: int| 0 <= i < x.len() implies #[trigger] due(i) is None by {
                assert(connector_leads(document, scope, x[i]));
            }
        }
        if forall|i: int| 0 <= i < x.len() ==> #[trigger] due(i) is None {
            assert forall|i: int| 0 <= i < x.len() implies connector_leads(document, scope, (#[trigger] x[i])) by {
                assert(due(i) is None);
            }
        }
    }
}

/// Whether each antenna of a list leads to things that exist.
pub open spec fn antennas_lead(
    document: Hcdf,
    scope: canonical::ConnectivityScope,
    x: Seq<canonical::Antenna>,
) -> bool {
    forall|i: int| 0 <= i < x.len() ==> leads(document, scope, (#[trigger] x[i]).representation)
}

proof fn antennas_fail_where_one_leads_nowhere(
    document: Hcdf,
    scope: canonical::ConnectivityScope,
    x: Seq<canonical::Antenna>,
)
    ensures
        forall|base: Seq<char>|
            faults::first_failure(
                x.len(),
                #[trigger] selectors::antennas_due(document, scope, x, base),
            ) is None <==> antennas_lead(document, scope, x),
{
    assert forall|base: Seq<char>|
        faults::first_failure(x.len(), #[trigger] selectors::antennas_due(document, scope, x, base)) is None
            <==> antennas_lead(document, scope, x) by {
        let due = selectors::antennas_due(document, scope, x, base);
        faults::no_failure_means_none(x.len(), due);
        assert forall|i: int| 0 <= i < x.len() implies (#[trigger] due(i) is None <==> leads(document, scope, x[i].representation)) by {
            representation_fails_where_it_leads_nowhere(document, scope, x[i].representation);
        }
        if antennas_lead(document, scope, x) {
            assert forall|i: int| 0 <= i < x.len() implies #[trigger] due(i) is None by {
                assert(leads(document, scope, x[i].representation));
            }
        }
        if forall|i: int| 0 <= i < x.len() ==> #[trigger] due(i) is None {
            assert forall|i: int| 0 <= i < x.len() implies leads(document, scope, (#[trigger] x[i]).representation) by {
                assert(due(i) is None);
            }
        }
    }
}

/// Whether each path of a list leads to things that exist.
pub open spec fn paths_lead(
    document: Hcdf,
    scope: canonical::ConnectivityScope,
    x: Seq<canonical::PhysicalPath>,
) -> bool {
    forall|i: int| 0 <= i < x.len() ==> leads(document, scope, (#[trigger] x[i]).representation)
}

proof fn paths_fail_where_one_leads_nowhere(
    document: Hcdf,
    scope: canonical::ConnectivityScope,
    x: Seq<canonical::PhysicalPath>,
)
    ensures
        forall|base: Seq<char>|
            faults::first_failure(
                x.len(),
                #[trigger] selectors::paths_due(document, scope, x, base),
            ) is None <==> paths_lead(document, scope, x),
{
    assert forall|base: Seq<char>|
        faults::first_failure(x.len(), #[trigger] selectors::paths_due(document, scope, x, base)) is None
            <==> paths_lead(document, scope, x) by {
        let due = selectors::paths_due(document, scope, x, base);
        faults::no_failure_means_none(x.len(), due);
        assert forall|i: int| 0 <= i < x.len() implies (#[trigger] due(i) is None <==> leads(document, scope, x[i].representation)) by {
            representation_fails_where_it_leads_nowhere(document, scope, x[i].representation);
        }
        if paths_lead(document, scope, x) {
            assert forall|i: int| 0 <= i < x.len() implies #[trigger] due(i) is None by {
                assert(leads(document, scope, x[i].representation));
            }
        }
        if forall|i: int| 0 <= i < x.len() ==> #[trigger] due(i) is None {
            assert forall|i: int| 0 <= i < x.len() implies leads(document, scope, (#[trigger] x[i]).representation) by {
                assert(due(i) is None);
            }
        }
    }
}

/// Whether each junction of a list leads to things that exist.
pub open spec fn junctions_lead(
    document: Hcdf,
    scope: canonical::ConnectivityScope,
    x: Seq<canonical::Junction>,
) -> bool {
    forall|i: int| 0 <= i < x.len() ==> leads(document, scope, (#[trigger] x[i]).representation)
}

proof fn junctions_fail_where_one_leads_nowhere(
    document: Hcdf,
    scope: canonical::ConnectivityScope,
    x: Seq<canonical::Junction>,
)
    ensures
        forall|base: Seq<char>|
            faults::first_failure(
                x.len(),
                #[trigger] selectors::junctions_due(document, scope, x, base),
            ) is None <==> junctions_lead(document, scope, x),
{
    assert forall|base: Seq<char>|
        faults::first_failure(x.len(), #[trigger] selectors::junctions_due(document, scope, x, base)) is None
            <==> junctions_lead(document, scope, x) by {
        let due = selectors::junctions_due(document, scope, x, base);
        faults::no_failure_means_none(x.len(), due);
        assert forall|i: int| 0 <= i < x.len() implies (#[trigger] due(i) is None <==> leads(document, scope, x[i].representation)) by {
            representation_fails_where_it_leads_nowhere(document, scope, x[i].representation);
        }
        if junctions_lead(document, scope, x) {
            assert forall|i: int| 0 <= i < x.len() implies #[trigger] due(i) is None by {
                assert(leads(document, scope, x[i].representation));
            }
        }
        if forall|i: int| 0 <= i < x.len() ==> #[trigger] due(i) is None {
            assert forall|i: int| 0 <= i < x.len() implies leads(document, scope, (#[trigger] x[i]).representation) by {
                assert(due(i) is None);
            }
        }
    }
}

/// Whether each termination of a list leads to things that exist.
pub open spec fn terminations_lead(
    document: Hcdf,
    scope: canonical::ConnectivityScope,
    x: Seq<canonical::Termination>,
) -> bool {
    forall|i: int| 0 <= i < x.len() ==> leads(document, scope, (#[trigger] x[i]).representation)
}

proof fn terminations_fail_where_one_leads_nowhere(
    document: Hcdf,
    scope: canonical::ConnectivityScope,
    x: Seq<canonical::Termination>,
)
    ensures
        forall|base: Seq<char>|
            faults::first_failure(
                x.len(),
                #[trigger] selectors::terminations_due(document, scope, x, base),
            ) is None <==> terminations_lead(document, scope, x),
{
    assert forall|base: Seq<char>|
        faults::first_failure(x.len(), #[trigger] selectors::terminations_due(document, scope, x, base)) is None
            <==> terminations_lead(document, scope, x) by {
        let due = selectors::terminations_due(document, scope, x, base);
        faults::no_failure_means_none(x.len(), due);
        assert forall|i: int| 0 <= i < x.len() implies (#[trigger] due(i) is None <==> leads(document, scope, x[i].representation)) by {
            representation_fails_where_it_leads_nowhere(document, scope, x[i].representation);
        }
        if terminations_lead(document, scope, x) {
            assert forall|i: int| 0 <= i < x.len() implies #[trigger] due(i) is None by {
                assert(leads(document, scope, x[i].representation));
            }
        }
        if forall|i: int| 0 <= i < x.len() ==> #[trigger] due(i) is None {
            assert forall|i: int| 0 <= i < x.len() implies leads(document, scope, (#[trigger] x[i]).representation) by {
                assert(due(i) is None);
            }
        }
    }
}

/// Whether all representations of a component lead to things that exist.
pub open spec fn component_leads(
    document: Hcdf,
    scope: canonical::ConnectivityScope,
    x: canonical::ComponentConnectivity,
) -> bool {
    &&& connectors_lead(document, scope, x.connectors@)
    &&& antennas_lead(document, scope, x.antennas@)
    &&& paths_lead(document, scope, x.paths@)
    &&& junctions_lead(document, scope, x.junctions@)
    &&& terminations_lead(document, scope, x.terminations@)
}

proof fn component_fails_where_it_leads_nowhere(
    document: Hcdf,
    scope: canonical::ConnectivityScope,
    x: canonical::ComponentConnectivity,
)
    ensures
        selectors::component_due(document, scope, x) is None <==> component_leads(document, scope, x),
{
    connectors_fail_where_one_leads_nowhere(document, scope, x.connectors@);
    antennas_fail_where_one_leads_nowhere(document, scope, x.antennas@);
    paths_fail_where_one_leads_nowhere(document, scope, x.paths@);
    junctions_fail_where_one_leads_nowhere(document, scope, x.junctions@);
    terminations_fail_where_one_leads_nowhere(document, scope, x.terminations@);
}

/// Whether all representations of an assembly lead to things that exist.
pub open spec fn assembly_leads(
    document: Hcdf,
    scope: canonical::ConnectivityScope,
    x: canonical::PhysicalAssembly,
) -> bool {
    &&& leads(document, scope, x.representation)
    &&& connectors_lead(document, scope, x.connectors@)
    &&& paths_lead(document, scope, x.paths@)
    &&& junctions_lead(document, scope, x.junctions@)
    &&& terminations_lead(document, scope, x.terminations@)
}

proof fn assembly_fails_where_it_leads_nowhere(
    document: Hcdf,
    scope: canonical::ConnectivityScope,
    x: canonical::PhysicalAssembly,
)
    ensures
        selectors::assembly_due(document, scope, x) is None <==> assembly_leads(document, scope, x),
{
    representation_fails_where_it_leads_nowhere(document, scope, x.representation);
    connectors_fail_where_one_leads_nowhere(document, scope, x.connectors@);
    paths_fail_where_one_leads_nowhere(document, scope, x.paths@);
    junctions_fail_where_one_leads_nowhere(document, scope, x.junctions@);
    terminations_fail_where_one_leads_nowhere(document, scope, x.terminations@);
}

/// Whether all representations of a scope lead to things that exist.
pub open spec fn all_lead(document: Hcdf, scope: canonical::ConnectivityScope) -> bool {
    &&& forall|i: int|
        0 <= i < scope.components@.len() ==> component_leads(
            document,
            scope,
            #[trigger] scope.components@[i],
        )
    &&& forall|i: int|
        0 <= i < scope.assemblies@.len() ==> assembly_leads(
            document,
            scope,
            #[trigger] scope.assemblies@[i],
        )
}

/// The selectors of a scope fail exactly where a representation of it leads nowhere.
pub proof fn selectors_fail_where_one_leads_nowhere(
    document: Hcdf,
    scope: canonical::ConnectivityScope,
)
    ensures
        selectors::selectors_due(document, scope) is None <==> all_lead(document, scope),
{
    reveal(selectors::selectors_due);
    let components = selectors::components_due(document, scope);
    let assemblies = selectors::assemblies_due(document, scope);
    let cs = scope.components@;
    let xs = scope.assemblies@;
    faults::no_failure_means_none(cs.len(), components);
    faults::no_failure_means_none(xs.len(), assemblies);
    assert forall|i: int| 0 <= i < cs.len() implies (#[trigger] components(i) is None
        <==> component_leads(document, scope, cs[i])) by {
        component_fails_where_it_leads_nowhere(document, scope, cs[i]);
    }
    assert forall|i: int| 0 <= i < xs.len() implies (#[trigger] assemblies(i) is None
        <==> assembly_leads(document, scope, xs[i])) by {
        assembly_fails_where_it_leads_nowhere(document, scope, xs[i]);
    }
    if all_lead(document, scope) {
        assert forall|i: int| 0 <= i < cs.len() implies #[trigger] components(i) is None by {
            assert(component_leads(document, scope, cs[i]));
        }
        assert forall|i: int| 0 <= i < xs.len() implies #[trigger] assemblies(i) is None by {
            assert(assembly_leads(document, scope, xs[i]));
        }
    }
    if selectors::selectors_due(document, scope) is None {
        assert forall|i: int| 0 <= i < cs.len() implies component_leads(
            document,
            scope,
            #[trigger] cs[i],
        ) by {
            assert(components(i) is None);
        }
        assert forall|i: int| 0 <= i < xs.len() implies assembly_leads(
            document,
            scope,
            #[trigger] xs[i],
        ) by {
            assert(assemblies(i) is None);
        }
    }
}

/// A document without unresolved inclusions converts exactly where its elements are sound and every
/// representation in its canonical form leads to things that exist.
pub proof fn which_documents_convert(
    source: Hcdf,
    document: canonical::DocumentIdentity,
    r: Converted<canonical::ConnectivityDocument>,
)
    requires
        convert_document::document_outcome(source, document, r),
        source.includes@.len() == 0,
    ensures
        match r {
            Ok(y) => is_sound_document(source) && all_lead(source, y.scopes@[0]),
            Err(e) => is_sound_document(source) ==> exists|
                scope: canonical::ConnectivityScope,
                root: canonical::IncludeInstanceId,
            | #[trigger]
                convert_document::scope_carries(source, root, scope) && !all_lead(source, scope),
        },
{
    match r {
        Ok(y) => {
            sound_laws::only_sound_documents_convert(source, document, r);
            selectors_fail_where_one_leads_nowhere(source, y.scopes@[0]);
        },
        Err(e) => {
            if is_sound_document(source) {
                sound_laws::sound_documents_fail_by_selectors_alone(source, document, r);
                let (scope, root) = choose|
                    scope: canonical::ConnectivityScope,
                    root: canonical::IncludeInstanceId,
                | #[trigger]
                    convert_document::scope_carries(source, root, scope) && selectors::selectors_due(
                        source,
                        scope,
                    ) == Some(e@);
                selectors_fail_where_one_leads_nowhere(source, scope);
                assert(convert_document::scope_carries(source, root, scope));
            }
        },
    }
}

} // verus!
