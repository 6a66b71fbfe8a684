//! The shape of stream-profile documents: which elements may stand where, in which order and how
//! often, and which attributes they may carry.
use vstd::prelude::*;
use crate::error;
use crate::error::{Error, Outcome};
use crate::faults;
use crate::text;
use crate::xml;
use crate::xml::{XmlAttribute, XmlEvent};
use quick_xml::events::BytesStart;

verus! {

/// How often a child element may occur.
pub struct ChildRule {
    pub name: Seq<char>,
    pub min: nat,
    pub max: Option<nat>,
}

/// A rule on a child element.
pub open spec fn rule(name: Seq<char>, min: nat, max: Option<nat>) -> ChildRule {
    ChildRule { name, min, max }
}

/// A rule on a child element, as the checker holds it.
#[derive(Debug, Clone, Copy)]
pub struct ChildSpec {
    pub name: &'static str,
    pub min: usize,
    pub max: Option<usize>,
}

impl View for ChildSpec {
    type V = ChildRule;

    open spec fn view(&self) -> ChildRule {
        rule(
            self.name@,
            self.min as nat,
            match self.max {
                Some(max) => Some(max as nat),
                None => None,
            },
        )
    }
}

/// The rules that a list of them states.
pub open spec fn rules(list: Seq<ChildSpec>) -> Seq<ChildRule> {
    list.map_values(|c: ChildSpec| c@)
}

/// The children that an element may have, in order.
pub open spec fn grammar_of(element: Seq<char>) -> Seq<ChildRule> {
    if element == "stream-profile"@ {
        seq![
            rule("description"@, 0, Some(1nat)),
            rule("dependency"@, 0, None),
            rule("stream-group"@, 0, None),
            rule("stream"@, 0, None),
        ]
    } else if element == "stream-group"@ {
        seq![
            rule("description"@, 0, Some(1nat)),
        ]
    } else if element == "stream"@ {
        seq![
            rule("description"@, 0, Some(1nat)),
            rule("group-ref"@, 0, Some(1nat)),
            rule("path"@, 1, Some(1nat)),
            rule("talker"@, 1, Some(1nat)),
            rule("listener"@, 1, None),
            rule("traffic-class-ref"@, 0, Some(1nat)),
            rule("schedule-ref"@, 0, Some(1nat)),
            rule("frer"@, 0, Some(1nat)),
        ]
    } else if element == "path"@ {
        seq![
            rule("network-ref"@, 1, None),
            rule("forwarding"@, 0, None),
        ]
    } else if element == "forwarding"@ {
        seq![
            rule("from"@, 1, Some(1nat)),
            rule("function-ref"@, 1, Some(1nat)),
            rule("to"@, 1, Some(1nat)),
        ]
    } else if element == "from"@ || element == "to"@ || element == "talker"@ || element == "listener"@ {
        seq![
            rule("participant-ref"@, 1, Some(1nat)),
        ]
    } else if element == "group-ref"@ || element == "network-ref"@ || element == "function-ref"@ || element == "participant-ref"@ || element == "traffic-class-ref"@ || element == "schedule-ref"@ {
        seq![
            rule("instance"@, 0, Some(1nat)),
        ]
    } else if element == "instance"@ {
        seq![
            rule("segment"@, 1, None),
        ]
    } else {
        Seq::empty()
    }
}

/// The children that an element may have, in order.
fn child_grammar(element: &str) -> (r: &'static [ChildSpec])
    ensures
        rules(r@) == grammar_of(element@),
{
    if text::same(element, "stream-profile") {
        let list: &'static [ChildSpec] = &[
            ChildSpec { name: "description", min: 0, max: Some(1) },
            ChildSpec { name: "dependency", min: 0, max: None },
            ChildSpec { name: "stream-group", min: 0, max: None },
            ChildSpec { name: "stream", min: 0, max: None },
        ];
        assert(rules(list@) =~= grammar_of(element@));
        list
    } else if text::same(element, "stream-group") {
        let list: &'static [ChildSpec] = &[
            ChildSpec { name: "description", min: 0, max: Some(1) },
        ];
        assert(rules(list@) =~= grammar_of(element@));
        list
    } else if text::same(element, "stream") {
        let list: &'static [ChildSpec] = &[
            ChildSpec { name: "description", min: 0, max: Some(1) },
            ChildSpec { name: "group-ref", min: 0, max: Some(1) },
            ChildSpec { name: "path", min: 1, max: Some(1) },
            ChildSpec { name: "talker", min: 1, max: Some(1) },
            ChildSpec { name: "listener", min: 1, max: None },
            ChildSpec { name: "traffic-class-ref", min: 0, max: Some(1) },
            ChildSpec { name: "schedule-ref", min: 0, max: Some(1) },
            ChildSpec { name: "frer", min: 0, max: Some(1) },
        ];
        assert(rules(list@) =~= grammar_of(element@));
        list
    } else if text::same(element, "path") {
        let list: &'static [ChildSpec] = &[
            ChildSpec { name: "network-ref", min: 1, max: None },
            ChildSpec { name: "forwarding", min: 0, max: None },
        ];
        assert(rules(list@) =~= grammar_of(element@));
        list
    } else if text::same(element, "forwarding") {
        let list: &'static [ChildSpec] = &[
            ChildSpec { name: "from", min: 1, max: Some(1) },
            ChildSpec { name: "function-ref", min: 1, max: Some(1) },
            ChildSpec { name: "to", min: 1, max: Some(1) },
        ];
        assert(rules(list@) =~= grammar_of(element@));
        list
    } else if text::same(element, "from") || text::same(element, "to") || text::same(element, "talker") || text::same(element, "listener") {
        let list: &'static [ChildSpec] = &[
            ChildSpec { name: "participant-ref", min: 1, max: Some(1) },
        ];
        assert(rules(list@) =~= grammar_of(element@));
        list
    } else if text::same(element, "group-ref") || text::same(element, "network-ref") || text::same(element, "function-ref") || text::same(element, "participant-ref") || text::same(element, "traffic-class-ref") || text::same(element, "schedule-ref") {
        let list: &'static [ChildSpec] = &[
            ChildSpec { name: "instance", min: 0, max: Some(1) },
        ];
        assert(rules(list@) =~= grammar_of(element@));
        list
    } else if text::same(element, "instance") {
        let list: &'static [ChildSpec] = &[
            ChildSpec { name: "segment", min: 1, max: None },
        ];
        assert(rules(list@) =~= grammar_of(element@));
        list
    } else {
        let list: &'static [ChildSpec] = &[];
        assert(rules(list@) =~= grammar_of(element@));
        list
    }
}

/// Whether an element may carry an attribute.
pub open spec fn is_allowed_attribute(element: Seq<char>, attribute: Seq<char>) -> bool {
    if element == "stream-profile"@ {
        attribute == "name"@ || attribute == "version"@
    } else if element == "dependency"@ {
        attribute == "uri"@ || attribute == "sha"@ || attribute == "required"@
    } else if element == "stream-group"@ {
        attribute == "name"@
    } else if element == "stream"@ {
        attribute == "name"@ || attribute == "vlan-id"@ || attribute == "pcp"@ || attribute == "max-frame-size-bytes"@ || attribute == "interval-ns"@ || attribute == "max-latency-ns"@ || attribute == "protocol"@
    } else if element == "group-ref"@ {
        attribute == "group"@
    } else if element == "network-ref"@ {
        attribute == "network"@
    } else if element == "function-ref"@ {
        attribute == "component"@ || attribute == "function"@
    } else if element == "participant-ref"@ {
        attribute == "network"@ || attribute == "participant"@
    } else if element == "traffic-class-ref"@ {
        attribute == "network"@ || attribute == "traffic-class"@
    } else if element == "schedule-ref"@ {
        attribute == "network"@ || attribute == "schedule"@
    } else if element == "segment"@ {
        attribute == "name"@ || attribute == "occurrence"@
    } else if element == "frer"@ {
        attribute == "seamless-trees"@ || attribute == "sequence-encoding"@
    } else {
        false
    }
}

/// Whether an element may carry an attribute.
fn allowed_attribute(element: &str, attribute: &str) -> (r: bool)
    ensures
        r == is_allowed_attribute(element@, attribute@),
{
    if text::same(element, "stream-profile") {
        text::same(attribute, "name") || text::same(attribute, "version")
    } else if text::same(element, "dependency") {
        text::same(attribute, "uri") || text::same(attribute, "sha") || text::same(attribute, "required")
    } else if text::same(element, "stream-group") {
        text::same(attribute, "name")
    } else if text::same(element, "stream") {
        text::same(attribute, "name") || text::same(attribute, "vlan-id") || text::same(attribute, "pcp") || text::same(attribute, "max-frame-size-bytes") || text::same(attribute, "interval-ns") || text::same(attribute, "max-latency-ns") || text::same(attribute, "protocol")
    } else if text::same(element, "group-ref") {
        text::same(attribute, "group")
    } else if text::same(element, "network-ref") {
        text::same(attribute, "network")
    } else if text::same(element, "function-ref") {
        text::same(attribute, "component") || text::same(attribute, "function")
    } else if text::same(element, "participant-ref") {
        text::same(attribute, "network") || text::same(attribute, "participant")
    } else if text::same(element, "traffic-class-ref") {
        text::same(attribute, "network") || text::same(attribute, "traffic-class")
    } else if text::same(element, "schedule-ref") {
        text::same(attribute, "network") || text::same(attribute, "schedule")
    } else if text::same(element, "segment") {
        text::same(attribute, "name") || text::same(attribute, "occurrence")
    } else if text::same(element, "frer") {
        text::same(attribute, "seamless-trees") || text::same(attribute, "sequence-encoding")
    } else {
        false
    }
}

/// The place of the first rule for a child of this name.
pub open spec fn rule_index(rules: Seq<ChildRule>, name: Seq<char>) -> Option<int>
    decreases rules.len(),
{
    if rules.len() == 0 {
        None
    } else {
        match rule_index(rules.drop_last(), name) {
            Some(i) => Some(i),
            None => if rules.last().name == name {
                Some(rules.len() - 1)
            } else {
                None
            },
        }
    }
}

proof fn rule_index_stays(rules: Seq<ChildRule>, m: int, name: Seq<char>)
    requires
        0 <= m <= rules.len(),
        rule_index(rules.take(m), name) is Some,
    ensures
        rule_index(rules, name) == rule_index(rules.take(m), name),
    decreases rules.len(),
{
    if m < rules.len() {
        assert(rules.drop_last().take(m) =~= rules.take(m));
        rule_index_stays(rules.drop_last(), m, name);
    } else {
        assert(rules.take(m) =~= rules);
    }
}

/// How often a rule has been met.
pub open spec fn occurrences(children: Seq<int>, at: int) -> nat
    decreases children.len(),
{
    if children.len() == 0 {
        0
    } else {
        occurrences(children.drop_last(), at) + (if children.last() == at {
            1nat
        } else {
            0nat
        })
    }
}

/// An open element: its name and, for each child so far, the place of the child's rule.
pub struct FrameView {
    pub name: Seq<char>,
    pub children: Seq<int>,
}

/// Whether the children of an open element keep to its grammar so far: known, in order, and not
/// too many.
pub open spec fn frame_keeps_grammar(frame: FrameView) -> bool {
    let grammar = grammar_of(frame.name);
    &&& forall|i: int|
        0 <= i < frame.children.len() ==> 0 <= #[trigger] frame.children[i] < grammar.len()
    &&& forall|i: int, j: int|
        0 <= i < j < frame.children.len() ==> #[trigger] frame.children[i]
            <= #[trigger] frame.children[j]
    &&& forall|k: int|
        0 <= k < grammar.len() ==> ((#[trigger] grammar[k]).max matches Some(max) ==> occurrences(
            frame.children,
            k,
        ) <= max)
}

/// The failure of a child element inside an open element.
pub open spec fn accept_due(frame: FrameView, child: Seq<char>, position: nat) -> Option<
    Seq<char>,
> {
    let grammar = grammar_of(frame.name);
    match rule_index(grammar, child) {
        None => Some(
            "unknown stream-profile core element <"@ + child + "> inside <"@ + frame.name
                + "> near byte "@ + text::decimal(position),
        ),
        Some(at) => if frame.children.len() > 0 && at < frame.children.last() {
            Some(
                "stream-profile element <"@ + child + "> is out of order inside <"@ + frame.name
                    + "> near byte "@ + text::decimal(position),
            )
        } else if grammar[at].max matches Some(max) && occurrences(frame.children, at) + 1 > max {
            Some(
                "stream-profile element <"@ + child + "> occurs too many times inside <"@
                    + frame.name + "> near byte "@ + text::decimal(position),
            )
        } else {
            None
        },
    }
}

/// An open element with one more child.
pub open spec fn with_child(frame: FrameView, child: Seq<char>) -> FrameView {
    FrameView {
        name: frame.name,
        children: frame.children.push(rule_index(grammar_of(frame.name), child)->0),
    }
}

/// The failure of a rule that a closing element has not met often enough.
pub open spec fn minimum_due(frame: FrameView, position: nat) -> spec_fn(int) -> Option<Seq<char>> {
    |i: int|
        {
            let rule = grammar_of(frame.name)[i];
            if occurrences(frame.children, i) >= rule.min {
                None
            } else if rule.min == 1 {
                Some(
                    "stream-profile element <"@ + frame.name + "> must declare at least one <"@
                        + rule.name + "> child element near byte "@ + text::decimal(position),
                )
            } else {
                Some(
                    "stream-profile element <"@ + frame.name + "> requires at least "@
                        + text::decimal(rule.min) + " <"@ + rule.name
                        + "> child element(s) near byte "@ + text::decimal(position),
                )
            }
        }
}

/// The failure of a closing element.
pub open spec fn finish_due(frame: FrameView, position: nat) -> Option<Seq<char>> {
    faults::first_failure(grammar_of(frame.name).len(), minimum_due(frame, position))
}

/// An open element.
pub struct ElementFrame {
    name: String,
    child_counts: Vec<usize>,
    last_child_index: Option<usize>,
    children: Ghost<Seq<int>>,
}

/// A count as far as a machine word holds it.
pub open spec fn capped(n: nat) -> nat {
    if n < usize::MAX {
        n
    } else {
        usize::MAX as nat
    }
}

impl View for ElementFrame {
    type V = FrameView;

    closed spec fn view(&self) -> FrameView {
        FrameView { name: self.name@, children: self.children@ }
    }
}

impl ElementFrame {
    /// The counts and the last index agree with the children, which keep to the grammar.
    pub closed spec fn wf(&self) -> bool {
        &&& frame_keeps_grammar(self@)
        &&& self.child_counts@.len() == grammar_of(self.name@).len()
        &&& forall|i: int|
            0 <= i < self.child_counts@.len() ==> #[trigger] self.child_counts@[i] as nat == capped(
                occurrences(self.children@, i),
            )
        &&& match self.last_child_index {
            Some(last) => self.children@.len() > 0 && self.children@.last() == last,
            None => self.children@.len() == 0,
        }
    }

    /// An element that has just been opened.
    fn new(name: String) -> (r: Self)
        ensures
            r.wf(),
            r@ == (FrameView { name: name@, children: Seq::empty() }),
    {
        let grammar = child_grammar(name.as_str());
        assert(rules(grammar@).len() == grammar@.len());
        let mut child_counts: Vec<usize> = Vec::new();
        let mut i: usize = 0;
        while i < grammar.len()
            invariant
                i <= grammar@.len(),
                child_counts@.len() == i,
                forall|k: int| 0 <= k < i ==> #[trigger] child_counts@[k] == 0,
            decreases grammar@.len() - i,
        {
            child_counts.push(0);
            i += 1;
        }
        ElementFrame {
            name,
            child_counts,
            last_child_index: None,
            children: Ghost(Seq::empty()),
        }
    }

    /// Takes one more child element.
    fn accept_child(&mut self, child_name: &str, position: u64) -> (r: Outcome<()>)
        requires
            old(self).wf(),
        ensures
            error::checked(r, accept_due(old(self)@, child_name@, position as nat)),
            r is Ok ==> final(self).wf() && final(self)@ == with_child(old(self)@, child_name@),
            final(self)@.name == old(self)@.name,
    {
        let grammar = child_grammar(self.name.as_str());
        let ghost stated = grammar_of(self.name@);
        assert(stated.len() == grammar@.len());
        let mut found: Option<usize> = None;
        let mut i: usize = 0;
        while i < grammar.len() && found.is_none()
            invariant
                i <= grammar@.len(),
                stated == rules(grammar@),
                stated == grammar_of(self.name@),
                *self == *old(self),
                match found {
                    Some(at) => at < grammar@.len() && rule_index(stated, child_name@) == Some(
                        at as int,
                    ),
                    None => rule_index(stated.take(i as int), child_name@) is None,
                },
            decreases grammar@.len() - i, (if found is None { 1int } else { 0int }),
        {
            let ghost upto = stated.take(i + 1);
            assert(upto.drop_last() =~= stated.take(i as int));
            assert(upto.last() == grammar@[i as int]@);
            if text::same(grammar[i].name, child_name) {
                proof {
                    rule_index_stays(stated, i + 1, child_name@);
                }
                found = Some(i);
            } else {
                i += 1;
            }
        }
        let index: usize = match found {
            Some(index) => index,
            None => {
                assert(stated.take(stated.len() as int) =~= stated);
                let mut words: String = "unknown stream-profile core element <".to_owned();
                words.append(child_name);
                words.append("> inside <");
                words.append(self.name.as_str());
                words.append("> near byte ");
                words.append(text::decimal_text(position).as_str());
                return Err(Error::Xml(words));
            },
        };
        if let Some(last) = self.last_child_index {
            if index < last {
                let mut words: String = "stream-profile element <".to_owned();
                words.append(child_name);
                words.append("> is out of order inside <");
                words.append(self.name.as_str());
                words.append("> near byte ");
                words.append(text::decimal_text(position).as_str());
                return Err(Error::Xml(words));
            }
        }
        let count: usize = self.child_counts[index];
        let met: usize = if count < usize::MAX { count + 1 } else { count };
        assert(stated[index as int] == grammar@[index as int]@);
        if let Some(max) = grammar[index].max {
            if met > max || count == usize::MAX {
                let mut words: String = "stream-profile element <".to_owned();
                words.append(child_name);
                words.append("> occurs too many times inside <");
                words.append(self.name.as_str());
                words.append("> near byte ");
                words.append(text::decimal_text(position).as_str());
                return Err(Error::Xml(words));
            }
        }
        let ghost before = self.children@;
        self.child_counts.set(index, met);
        self.last_child_index = Some(index);
        self.children = Ghost(before.push(index as int));
        proof {
            let after = before.push(index as int);
            assert(after.drop_last() =~= before);
            assert forall|k: int| 0 <= k < self.child_counts@.len() implies
                #[trigger] self.child_counts@[k] as nat == capped(occurrences(after, k)) by {
                assert(old(self).child_counts@[k] as nat == capped(occurrences(before, k)));
            }
            assert forall|k: int| 0 <= k < stated.len() implies ((
            #[trigger] stated[k]).max matches Some(max) ==> occurrences(after, k) <= max) by {
                assert(stated[k].max matches Some(max) ==> occurrences(before, k) <= max);
            }
            assert forall|a: int, b: int| 0 <= a < b < after.len() implies #[trigger] after[a]
                <= #[trigger] after[b] by {
                if b == before.len() && before.len() > 0 {
                    assert(before[a] <= before[before.len() - 1]);
                }
            }
            assert forall|a: int| 0 <= a < after.len() implies 0 <= #[trigger] after[a]
                < stated.len() by {
                if a < before.len() {
                    assert(0 <= before[a] < stated.len());
                }
            }
        }
        Ok(())
    }

    /// Closes the element: every child must have occurred often enough.
    fn finish(&self, position: u64) -> (r: Outcome<()>)
        requires
            self.wf(),
        ensures
            error::checked(r, finish_due(self@, position as nat)),
    {
        let grammar = child_grammar(self.name.as_str());
        let ghost stated = grammar_of(self.name@);
        let ghost due = minimum_due(self@, position as nat);
        assert(stated.len() == grammar@.len());
        let mut i: usize = 0;
        while i < grammar.len()
            invariant
                i <= grammar@.len(),
                self.wf(),
                stated == rules(grammar@),
                stated == grammar_of(self@.name),
                stated == grammar_of(self.name@),
                stated.len() == grammar@.len(),
                due == minimum_due(self@, position as nat),
                faults::first_failure(i as nat, due) is None,
            decreases grammar@.len() - i,
        {
            assert(stated[i as int] == grammar@[i as int]@);
            assert(self.child_counts@[i as int] as nat == capped(
                occurrences(self.children@, i as int),
            ));
            if self.child_counts[i] < grammar[i].min {
                let mut words: String = "stream-profile element <".to_owned();
                words.append(self.name.as_str());
                if grammar[i].min == 1 {
                    words.append("> must declare at least one <");
                    words.append(grammar[i].name);
                    words.append("> child element near byte ");
                } else {
                    words.append("> requires at least ");
                    words.append(text::decimal_text(grammar[i].min as u64).as_str());
                    words.append(" <");
                    words.append(grammar[i].name);
                    words.append("> child element(s) near byte ");
                }
                words.append(text::decimal_text(position).as_str());
                proof {
                    faults::first_failure_stays((i + 1) as nat, stated.len(), due);
                }
                return Err(Error::Xml(words));
            }
            i += 1;
        }
        Ok(())
    }
}

// Attributes.

/// Whether an attribute declares a namespace.
pub open spec fn is_namespace_key(key: Seq<char>) -> bool {
    key == "xmlns"@ || text::starts_with(key, "xmlns:"@)
}

fn namespace_key(key: &str) -> (r: bool)
    ensures
        r == is_namespace_key(key@),
{
    text::same(key, "xmlns") || text::has_prefix(key, "xmlns:")
}

/// Whether the attributes declare a namespace that is not empty, up to the first that cannot be
/// read.
pub open spec fn namespaced(attributes: Seq<xml::AttributeView>) -> Result<bool, Seq<char>>
    decreases attributes.len(),
{
    if attributes.len() == 0 {
        Ok(false)
    } else {
        match attributes[0] {
            xml::AttributeView::Failed(message) => Err(message),
            xml::AttributeView::Read { key, value, .. } => if is_namespace_key(key) {
                match value {
                    Err(message) => Err(message),
                    Ok(text) => if text.len() > 0 {
                        Ok(true)
                    } else {
                        namespaced(attributes.drop_first())
                    },
                }
            } else {
                namespaced(attributes.drop_first())
            },
        }
    }
}

fn has_nonempty_namespace(attributes: &Vec<XmlAttribute>) -> (r: Outcome<bool>)
    ensures
        match namespaced(xml::attribute_views(attributes@)) {
            Ok(found) => r == Ok::<bool, Error>(found),
            Err(message) => r matches Err(e) && e.is_xml(message),
        },
{
    let ghost all = xml::attribute_views(attributes@);
    let mut i: usize = 0;
    assert(all.skip(0) =~= all);
    while i < attributes.len()
        invariant
            i <= attributes@.len(),
            all == xml::attribute_views(attributes@),
            namespaced(all) == namespaced(all.skip(i as int)),
        decreases attributes@.len() - i,
    {
        assert(all.skip(i as int)[0] == attributes@[i as int]@);
        assert(all.skip(i as int).drop_first() =~= all.skip(i + 1));
        match &attributes[i] {
            XmlAttribute::Failed(message) => {
                return Err(Error::Xml(message.clone()));
            },
            XmlAttribute::Read { key, value, .. } => {
                if namespace_key(key.as_str()) {
                    match value {
                        Err(message) => {
                            return Err(Error::Xml(message.clone()));
                        },
                        Ok(text) => {
                            if !text.as_str().is_empty() {
                                return Ok(true);
                            }
                        },
                    }
                }
            },
        }
        i += 1;
    }
    Ok(false)
}

/// The failure of the attribute at a place of an element's list.
pub open spec fn attributes_due(
    attributes: Seq<xml::AttributeView>,
    element: Seq<char>,
) -> spec_fn(int) -> Option<Seq<char>> {
    |i: int|
        match attributes[i] {
            xml::AttributeView::Failed(message) => Some(message),
            xml::AttributeView::Read { key, .. } => if is_namespace_key(key)
                || is_allowed_attribute(element, key) {
                None
            } else {
                Some(
                    "unknown stream-profile core attribute @"@ + key + " on <"@ + element + ">"@,
                )
            },
        }
}

fn check_attributes(attributes: &Vec<XmlAttribute>, name: &str) -> (r: Outcome<()>)
    ensures
        error::checked(
            r,
            faults::first_failure(
                attributes@.len(),
                attributes_due(xml::attribute_views(attributes@), name@),
            ),
        ),
{
    let ghost all = xml::attribute_views(attributes@);
    let ghost due = attributes_due(all, name@);
    let mut i: usize = 0;
    while i < attributes.len()
        invariant
            i <= attributes@.len(),
            all == xml::attribute_views(attributes@),
            due == attributes_due(all, name@),
            faults::first_failure(i as nat, due) is None,
        decreases attributes@.len() - i,
    {
        assert(all[i as int] == attributes@[i as int]@);
        match &attributes[i] {
            XmlAttribute::Failed(message) => {
                proof {
                    faults::first_failure_stays((i + 1) as nat, attributes@.len(), due);
                }
                return Err(Error::Xml(message.clone()));
            },
            XmlAttribute::Read { key, .. } => {
                if !namespace_key(key.as_str()) && !allowed_attribute(name, key.as_str()) {
                    let mut words: String = "unknown stream-profile core attribute @".to_owned();
                    words.append(key.as_str());
                    words.append(" on <");
                    words.append(name);
                    words.append(">");
                    proof {
                        faults::first_failure_stays((i + 1) as nat, attributes@.len(), due);
                    }
                    return Err(Error::Xml(words));
                }
            },
        }
        i += 1;
    }
    Ok(())
}

// The checker.

/// Where the check of a document stands: the open elements and whether a root has been seen.
pub struct CheckState {
    pub stack: Seq<FrameView>,
    pub saw_root: bool,
}

/// What the frames of a stack hold.
pub open spec fn frames(stack: Seq<ElementFrame>) -> Seq<FrameView> {
    stack.map_values(|f: ElementFrame| f@)
}

/// The failure of an opening tag.
pub open spec fn element_due(
    state: CheckState,
    element: xml::ElementView,
    position: nat,
) -> Option<Seq<char>> {
    let spaced = "namespaced stream-profile core element <"@ + element.local
        + "> is not allowed near byte "@ + text::decimal(position);
    let namespace_due = if element.name.contains(':') {
        Some(spaced)
    } else {
        match namespaced(element.attributes) {
            Err(message) => Some(message),
            Ok(true) => Some(spaced),
            Ok(false) => None,
        }
    };
    let place_due = if state.stack.len() == 0 {
        if state.saw_root || element.local != "stream-profile"@ {
            Some(
                "expected root <stream-profile>, found <"@ + element.local + "> near byte "@
                    + text::decimal(position),
            )
        } else {
            None
        }
    } else {
        accept_due(state.stack.last(), element.local, position)
    };
    faults::either(
        namespace_due,
        faults::either(
            place_due,
            faults::first_failure(
                element.attributes.len(),
                attributes_due(element.attributes, element.local),
            ),
        ),
    )
}

/// The open elements once a child tag has been seen: the innermost has one more child.
pub open spec fn with_element(stack: Seq<FrameView>, local: Seq<char>) -> Seq<FrameView> {
    if stack.len() == 0 {
        stack
    } else {
        stack.drop_last().push(with_child(stack.last(), local))
    }
}

/// The frame of an element that has just been opened.
pub open spec fn opened(local: Seq<char>) -> FrameView {
    FrameView { name: local, children: Seq::empty() }
}

/// The failure of character content.
pub open spec fn text_due(stack: Seq<FrameView>, content: Seq<char>, position: nat) -> Option<
    Seq<char>,
> {
    if stack.len() == 0 || stack.last().name == "description"@ || text::is_blank(content) {
        None
    } else {
        Some(
            "unexpected character content in stream-profile core element <"@ + stack.last().name
                + "> near byte "@ + text::decimal(position),
        )
    }
}

/// What one step does to the state of the check.
pub open spec fn after_step(state: CheckState, step: xml::StepView) -> Result<
    CheckState,
    Seq<char>,
> {
    let position = step.position;
    match step.event {
        xml::EventView::Start(element) => match element_due(state, element, position) {
            Some(message) => Err(message),
            None => Ok(
                CheckState {
                    stack: with_element(state.stack, element.local).push(opened(element.local)),
                    saw_root: state.saw_root || state.stack.len() == 0,
                },
            ),
        },
        xml::EventView::Empty(element) => match faults::either(
            element_due(state, element, position),
            finish_due(opened(element.local), position),
        ) {
            Some(message) => Err(message),
            None => Ok(
                CheckState {
                    stack: with_element(state.stack, element.local),
                    saw_root: state.saw_root || state.stack.len() == 0,
                },
            ),
        },
        xml::EventView::End => if state.stack.len() == 0 {
            Err("unexpected stream-profile closing element"@)
        } else {
            match finish_due(state.stack.last(), position) {
                Some(message) => Err(message),
                None => Ok(CheckState { stack: state.stack.drop_last(), ..state }),
            }
        },
        xml::EventView::Text(Err(message)) => Err(message),
        xml::EventView::Text(Ok(content)) => match text_due(state.stack, content, position) {
            Some(message) => Err(message),
            None => Ok(state),
        },
        xml::EventView::CData(Err(message)) => Err(message),
        xml::EventView::CData(Ok(content)) => match text_due(state.stack, content, position) {
            Some(message) => Err(message),
            None => Ok(state),
        },
        xml::EventView::Failed(message) => Err(message),
        _ => Ok(state),
    }
}

/// The failure of the remaining steps of a document, from a state of the check on.
pub open spec fn steps_due(state: CheckState, steps: Seq<xml::StepView>) -> Option<Seq<char>>
    decreases steps.len(),
{
    if steps.len() == 0 {
        None
    } else if steps[0].event is Eof {
        if state.saw_root {
            None
        } else {
            Some("expected root <stream-profile> element"@)
        }
    } else {
        match after_step(state, steps[0]) {
            Err(message) => Some(message),
            Ok(next) => steps_due(next, steps.drop_first()),
        }
    }
}

/// The state before the first step.
pub open spec fn initial() -> CheckState {
    CheckState { stack: Seq::empty(), saw_root: false }
}

/// The state of the checker as it runs.
struct Checker {
    stack: Vec<ElementFrame>,
    saw_root: bool,
}

impl View for Checker {
    type V = CheckState;

    closed spec fn view(&self) -> CheckState {
        CheckState { stack: frames(self.stack@), saw_root: self.saw_root }
    }
}

impl Checker {
    /// Every open element keeps to its grammar.
    spec fn wf(&self) -> bool {
        forall|i: int| 0 <= i < self.stack@.len() ==> (#[trigger] self.stack@[i]).wf()
    }

    /// Takes an opening tag; gives the frame of the new element.
    fn check_element(&mut self, element: &BytesStart<'_>, position: u64) -> (r: Outcome<
        ElementFrame,
    >)
        requires
            old(self).wf(),
        ensures
            match element_due(old(self)@, xml::element_of(*element), position as nat) {
                Some(message) => r matches Err(e) && e.is_xml(message),
                None => r matches Ok(frame) && frame.wf() && frame@ == opened(
                    xml::element_of(*element).local,
                ) && final(self).wf() && final(self)@ == (CheckState {
                    stack: with_element(old(self)@.stack, xml::element_of(*element).local),
                    saw_root: old(self)@.saw_root,
                }),
            },
    {
        let whole = xml::tag_name(element);
        let name = xml::tag_local_name(element);
        let attributes = xml::tag_attributes(element);
        let ghost view = xml::element_of(*element);
        assert(view.attributes.len() == attributes@.len());
        let spaced = if text::contains(whole.as_str(), ':') {
            true
        } else {
            has_nonempty_namespace(&attributes)?
        };
        if spaced {
            let mut words: String = "namespaced stream-profile core element <".to_owned();
            words.append(name.as_str());
            words.append("> is not allowed near byte ");
            words.append(text::decimal_text(position).as_str());
            return Err(Error::Xml(words));
        }
        let ghost before = self@;
        let depth: usize = self.stack.len();
        if depth == 0 {
            if self.saw_root || !text::same(name.as_str(), "stream-profile") {
                let mut words: String = "expected root <stream-profile>, found <".to_owned();
                words.append(name.as_str());
                words.append("> near byte ");
                words.append(text::decimal_text(position).as_str());
                return Err(Error::Xml(words));
            }
        } else {
            let ghost stack = self.stack@;
            assert(before.stack.last() == stack[depth - 1]@);
            let _ = self.stack[depth - 1].accept_child(name.as_str(), position)?;
            proof {
                assert(frames(self.stack@) =~= with_element(before.stack, view.local));
            }
        }
        let _ = check_attributes(&attributes, name.as_str())?;
        Ok(ElementFrame::new(name))
    }

    /// Takes character content.
    fn check_text(&self, content: &str, position: u64) -> (r: Outcome<()>)
        requires
            self.wf(),
        ensures
            error::checked(r, text_due(self@.stack, content@, position as nat)),
    {
        let depth: usize = self.stack.len();
        if depth == 0 {
            return Ok(());
        }
        let top = &self.stack[depth - 1];
        assert(self@.stack.last() == top@);
        if text::same(top.name.as_str(), "description") || text::blank(content) {
            return Ok(());
        }
        let mut words: String = "unexpected character content in stream-profile core element <".to_owned();
        words.append(top.name.as_str());
        words.append("> near byte ");
        words.append(text::decimal_text(position).as_str());
        Err(Error::Xml(words))
    }

    /// Takes one event.
    fn check_event(&mut self, event: &XmlEvent<'_>, position: u64, Ghost(step): Ghost<
        xml::StepView,
    >) -> (r: Outcome<()>)
        requires
            old(self).wf(),
            step.position == position as nat,
            match (*event, step.event) {
                (XmlEvent::Start(e), xml::EventView::Start(v)) => xml::element_of(e) == v,
                (XmlEvent::Empty(e), xml::EventView::Empty(v)) => xml::element_of(e) == v,
                (XmlEvent::End, xml::EventView::End) => true,
                (XmlEvent::Text(t), xml::EventView::Text(v)) => xml::text_held(t) == v,
                (XmlEvent::CData(t), xml::EventView::CData(v)) => xml::cdata_held(t) == v,
                (XmlEvent::Eof, xml::EventView::Eof) => true,
                (XmlEvent::Other, xml::EventView::Other) => true,
                _ => false,
            },
        ensures
            match after_step(old(self)@, step) {
                Err(message) => r matches Err(e) && e.is_xml(message),
                Ok(next) => r is Ok && final(self).wf() && final(self)@ == next,
            },
    {
        let ghost before = self@;
        match event {
            XmlEvent::Start(element) => {
                let root = self.stack.len() == 0;
                let frame = self.check_element(element, position)?;
                if root {
                    self.saw_root = true;
                }
                let ghost middle = self.stack@;
                self.stack.push(frame);
                proof {
                    assert(frames(self.stack@) =~= frames(middle).push(frame@));
                }
                Ok(())
            },
            XmlEvent::Empty(element) => {
                let root = self.stack.len() == 0;
                let frame = self.check_element(element, position)?;
                if root {
                    self.saw_root = true;
                }
                frame.finish(position)
            },
            XmlEvent::End => {
                match self.stack.pop() {
                    None => Err(
                        Error::Xml("unexpected stream-profile closing element".to_owned()),
                    ),
                    Some(frame) => {
                        proof {
                            assert(before.stack.last() == frame@);
                            assert(frames(self.stack@) =~= before.stack.drop_last());
                        }
                        frame.finish(position)
                    },
                }
            },
            XmlEvent::Text(text) => {
                match xml::unescape(text) {
                    Err(message) => Err(Error::Xml(message)),
                    Ok(content) => self.check_text(content.as_str(), position),
                }
            },
            XmlEvent::CData(text) => {
                match xml::decode(text) {
                    Err(message) => Err(Error::Xml(message)),
                    Ok(content) => self.check_text(content.as_str(), position),
                }
            },
            XmlEvent::Eof => Ok(()),
            XmlEvent::Other => Ok(()),
        }
    }
}

/// Checks the shape of a stream-profile document: elements, order, multiplicity, attributes and
/// character content, at every depth.
pub fn check_stream_profile_xml(source: &str) -> (r: Outcome<()>)
    ensures
        error::checked(r, steps_due(initial(), xml::steps_of(source@))),
{
    let mut reader = xml::open_reader(source);
    let mut checker = Checker { stack: Vec::new(), saw_root: false };
    let ghost all = xml::steps_of(source@);
    proof {
        assert(frames(checker.stack@) =~= Seq::empty());
    }
    loop
        invariant
            checker.wf(),
            xml::runs_to_end(xml::steps_left(reader)),
            steps_due(initial(), all) == steps_due(checker@, xml::steps_left(reader)),
            all == xml::steps_of(source@),
        decreases xml::steps_left(reader).len(),
    {
        let ghost steps = xml::steps_left(reader);
        let event = match xml::read_event(&mut reader) {
            Ok(event) => event,
            Err(message) => {
                return Err(Error::Xml(message));
            },
        };
        let position = xml::buffer_position(&reader);
        if let XmlEvent::Eof = event {
            if !checker.saw_root {
                return Err(Error::Xml("expected root <stream-profile> element".to_owned()));
            }
            return Ok(());
        }
        let _ = checker.check_event(&event, position, Ghost(steps[0]))?;
        proof {
            assert(!xml::is_last(steps[0]));
            xml::rest_runs_to_end(steps);
        }
    }
}

} // verus!
