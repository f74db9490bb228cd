//! One rule: named conditions and the outgoing templates they guard.

use vstd::prelude::*;

use crate::evaluate::Evaluator;
use crate::yaml::{
    spec_as_text, spec_field, text_field, YamlNode,
};

verus! {

/// Mathematical model of an outgoing template.
pub ghost struct MessageModel {
    /// The referenced condition name, if the template is guarded.
    pub condition: Option<Seq<char>>,
    /// The target topic.
    pub topic: Seq<char>,
    /// The outgoing payload text.
    pub message: Seq<char>,
}

/// Mathematical model of a rule: its named conditions in declaration order,
/// and its templates in declaration order.
pub ghost struct MappingModel {
    pub conditions: Seq<(Seq<char>, Seq<char>)>,
    pub messages: Seq<MessageModel>,
}

/// One candidate outgoing message: a target topic, a payload, and an optional
/// reference to one of the rule's named conditions.
pub struct MappingMessage {
    pub condition: Option<String>,
    pub topic: String,
    pub message: String,
}

impl View for MappingMessage {
    type V = MessageModel;

    open spec fn view(&self) -> MessageModel {
        MessageModel {
            condition: match self.condition {
                Some(c) => Some(c@),
                None => None,
            },
            topic: self.topic@,
            message: self.message@,
        }
    }
}

impl Clone for MappingMessage {
    fn clone(&self) -> (r: Self)
        ensures
            r@ == self@,
    {
        MappingMessage {
            condition: match &self.condition {
                Some(c) => Some(c.clone()),
                None => None,
            },
            topic: self.topic.clone(),
            message: self.message.clone(),
        }
    }
}

/// One rule: a map from condition name to expression, and the ordered
/// outgoing templates.
pub struct Mapping {
    pub conditions: Vec<(String, String)>,
    pub messages: Vec<MappingMessage>,
}

impl View for Mapping {
    type V = MappingModel;

    open spec fn view(&self) -> MappingModel {
        MappingModel {
            conditions: self.conditions@.map_values(|p: (String, String)| (p.0@, p.1@)),
            messages: self.messages@.map_values(|m: MappingMessage| m@),
        }
    }
}

/// The expression under the first condition named `name`, if any.
pub open spec fn spec_condition_lookup(
    conds: Seq<(Seq<char>, Seq<char>)>,
    name: Seq<char>,
) -> Option<Seq<char>>
    decreases conds.len(),
{
    if conds.len() == 0 {
        None
    } else if conds[0].0 == name {
        Some(conds[0].1)
    } else {
        spec_condition_lookup(conds.drop_first(), name)
    }
}

/// Whether a template is selected, given the verdict the evaluator gave for
/// its condition (the verdict is irrelevant for an unguarded template, and a
/// reference to an absent condition never matches).
pub open spec fn spec_template_selected(
    conds: Seq<(Seq<char>, Seq<char>)>,
    msg: MessageModel,
    verdict: bool,
) -> bool {
    match msg.condition {
        None => true,
        Some(name) => spec_condition_lookup(conds, name) is Some && verdict,
    }
}

/// The templates selected from `msgs` under the per-template verdicts `vs`,
/// in declaration order.
pub open spec fn spec_selected(
    conds: Seq<(Seq<char>, Seq<char>)>,
    msgs: Seq<MessageModel>,
    vs: Seq<bool>,
) -> Seq<MessageModel>
    decreases msgs.len(),
{
    if msgs.len() == 0 {
        Seq::empty()
    } else {
        let prefix = spec_selected(conds, msgs.drop_last(), vs.drop_last());
        if spec_template_selected(conds, msgs.last(), vs.last()) {
            prefix.push(msgs.last())
        } else {
            prefix
        }
    }
}

/// Whether `v` is a verdict the evaluator may give for template `i` of the
/// rule: constrained only where the template references a condition that the
/// rule defines.
pub open spec fn spec_verdict_ok<E: Evaluator>(
    m: MappingModel,
    payload: Seq<u8>,
    eval: E,
    v: bool,
    i: int,
) -> bool {
    match m.messages[i].condition {
        Some(name) => match spec_condition_lookup(m.conditions, name) {
            Some(expr) => eval.may_return(expr, payload, v),
            None => true,
        },
        None => true,
    }
}

/// Whether `vs` assigns every template of the rule a verdict the evaluator
/// may give for this payload.
pub open spec fn spec_consistent_verdicts<E: Evaluator>(
    m: MappingModel,
    payload: Seq<u8>,
    eval: E,
    vs: Seq<bool>,
) -> bool {
    &&& vs.len() == m.messages.len()
    &&& forall|i: int| 0 <= i < vs.len() ==> #[trigger] spec_verdict_ok(m, payload, eval, vs[i], i)
}

impl Mapping {
    /// The expression of the condition named `name`, if the rule defines one.
    pub fn find_condition<'a>(&'a self, name: &String) -> (r: Option<&'a String>)
        ensures
            match r {
                Some(e) => spec_condition_lookup(self@.conditions, name@) == Some(e@),
                None => spec_condition_lookup(self@.conditions, name@) is None,
            },
    {
        let ghost conds = self@.conditions;
        let mut i: usize = 0;
        proof {
            assert(conds.skip(0) =~= conds);
        }
        while i < self.conditions.len()
            invariant
                conds == self@.conditions,
                conds.len() == self.conditions@.len(),
                forall|j: int| 0 <= j < conds.len()
                    ==> #[trigger] conds[j] == (self.conditions@[j].0@, self.conditions@[j].1@),
                i <= self.conditions@.len(),
                spec_condition_lookup(conds, name@) == spec_condition_lookup(
                    conds.skip(i as int),
                    name@,
                ),
            decreases self.conditions@.len() - i,
        {
            proof {
                assert(conds.skip(i as int)[0] == conds[i as int]);
                assert(conds.skip(i as int).drop_first() =~= conds.skip(i as int + 1));
            }
            let pair = &self.conditions[i];
            if pair.0.eq(name) {
                return Some(&pair.1);
            }
            i = i + 1;
        }
        None
    }

    /// Whether this template of the rule matches the payload: an unguarded
    /// template always, a template guarded by an absent condition never, and
    /// otherwise as the evaluator judges the condition's expression. The
    /// result is itself a verdict the evaluator may have given, so it selects
    /// the template exactly.
    fn is_mapping_matching<E: Evaluator>(
        &self,
        payload: &[u8],
        msg: &MappingMessage,
        eval: &E,
    ) -> (r: bool)
        ensures
            msg@.condition is None ==> r == true,
            match msg@.condition {
                Some(name) => match spec_condition_lookup(self@.conditions, name) {
                    Some(expr) => eval.may_return(expr, payload@, r),
                    None => r == false,
                },
                None => true,
            },
            r == spec_template_selected(self@.conditions, msg@, r),
    {
        match &msg.condition {
            None => true,
            Some(name) => match self.find_condition(name) {
                None => false,
                Some(expr) => eval.evaluate(expr.as_str(), payload),
            },
        }
    }

    /// The templates of the rule that match the payload, in declaration
    /// order: for some assignment of verdicts that the evaluator may give,
    /// exactly the selected templates.
    pub fn matching_messages<E: Evaluator>(&self, payload: &[u8], eval: &E) -> (r: Vec<
        MappingMessage,
    >)
        ensures
            exists|vs: Seq<bool>|
                {
                    &&& #[trigger] spec_consistent_verdicts(self@, payload@, *eval, vs)
                    &&& r@.map_values(|m: MappingMessage| m@) == spec_selected(
                        self@.conditions,
                        self@.messages,
                        vs,
                    )
                },
    {
        let mut r: Vec<MappingMessage> = Vec::new();
        let ghost mut vs: Seq<bool> = Seq::empty();
        let mut i: usize = 0;
        proof {
            assert(self@.messages.take(0) =~= Seq::<MessageModel>::empty());
            assert(r@.map_values(|m: MappingMessage| m@) =~= Seq::<MessageModel>::empty());
        }
        while i < self.messages.len()
            invariant
                i <= self.messages@.len(),
                self@.messages.len() == self.messages@.len(),
                forall|j: int| 0 <= j < self.messages@.len()
                    ==> #[trigger] self@.messages[j] == self.messages@[j]@,
                vs.len() == i,
                forall|j: int| 0 <= j < i ==> #[trigger] spec_verdict_ok(
                    self@,
                    payload@,
                    *eval,
                    vs[j],
                    j,
                ),
                r@.map_values(|m: MappingMessage| m@) == spec_selected(
                    self@.conditions,
                    self@.messages.take(i as int),
                    vs,
                ),
            decreases self.messages@.len() - i,
        {
            let msg = &self.messages[i];
            let included = self.is_mapping_matching(payload, msg, eval);
            let ghost v = included;
            proof {
                assert(spec_verdict_ok(self@, payload@, *eval, v, i as int));
                let msgs1 = self@.messages.take(i as int + 1);
                assert(msgs1.drop_last() =~= self@.messages.take(i as int));
                assert(msgs1.last() == self@.messages[i as int]);
                assert(vs.push(v).drop_last() =~= vs);
            }
            if included {
                let picked = msg.clone();
                r.push(picked);
                proof {
                    assert(r@.map_values(|m: MappingMessage| m@) =~= spec_selected(
                        self@.conditions,
                        self@.messages.take(i as int),
                        vs,
                    ).push(msg@));
                }
            }
            proof {
                vs = vs.push(v);
            }
            i = i + 1;
        }
        proof {
            assert(self@.messages.take(self.messages@.len() as int) =~= self@.messages);
            assert(spec_consistent_verdicts(self@, payload@, *eval, vs));
        }
        r
    }

    /// Reads a rule from a parsed document: the string-to-string pairs of its
    /// `conditions` mapping, and the well-formed entries of its `messages`
    /// sequence, both in document order. A document without either field
    /// yields an empty rule; this function itself never fails.
    pub fn from_yaml(doc: &YamlNode) -> (r: Result<Mapping, String>)
        ensures
            r matches Ok(m) && m@ == spec_mapping_of(*doc),
    {
        Ok(
            Mapping {
                conditions: parse_conditions(doc),
                messages: parse_messages(doc),
            },
        )
    }
}

/// The rule a parsed document describes.
pub open spec fn spec_mapping_of(doc: YamlNode) -> MappingModel {
    MappingModel { conditions: spec_conditions_of(doc), messages: spec_messages_of(doc) }
}

/// The condition map a parsed document describes: the string-to-string pairs
/// of its `conditions` mapping, in document order.
pub open spec fn spec_conditions_of(doc: YamlNode) -> Seq<(Seq<char>, Seq<char>)> {
    match spec_field(doc, "conditions"@) {
        Some(YamlNode::Assoc(pairs)) => spec_condition_pairs(pairs@),
        _ => Seq::empty(),
    }
}

/// The string-to-string pairs among `pairs`, in order.
pub open spec fn spec_condition_pairs(pairs: Seq<(YamlNode, YamlNode)>) -> Seq<
    (Seq<char>, Seq<char>),
>
    decreases pairs.len(),
{
    if pairs.len() == 0 {
        Seq::empty()
    } else {
        let prefix = spec_condition_pairs(pairs.drop_last());
        match pairs.last() {
            (YamlNode::Text(k), YamlNode::Text(v)) => prefix.push((k@, v@)),
            _ => prefix,
        }
    }
}

/// The template sequence a parsed document describes: the well-formed entries
/// of its `messages` sequence, in document order.
pub open spec fn spec_messages_of(doc: YamlNode) -> Seq<MessageModel> {
    match spec_field(doc, "messages"@) {
        Some(YamlNode::List(items)) => spec_message_items(items@),
        _ => Seq::empty(),
    }
}

/// The well-formed templates among `items`, in order.
pub open spec fn spec_message_items(items: Seq<YamlNode>) -> Seq<MessageModel>
    decreases items.len(),
{
    if items.len() == 0 {
        Seq::empty()
    } else {
        let prefix = spec_message_items(items.drop_last());
        match spec_message_of(items.last()) {
            Some(m) => prefix.push(m),
            None => prefix,
        }
    }
}

/// The template one sequence entry describes: it must carry text under
/// `topic` and under `message`; a text under `condition` is the guard, and a
/// missing or non-text `condition` means unguarded.
pub open spec fn spec_message_of(item: YamlNode) -> Option<MessageModel> {
    match (
        spec_as_text(spec_field(item, "topic"@)),
        spec_as_text(spec_field(item, "message"@)),
    ) {
        (Some(t), Some(msg)) => Some(
            MessageModel {
                condition: spec_as_text(spec_field(item, "condition"@)),
                topic: t,
                message: msg,
            },
        ),
        _ => None,
    }
}

/// Fail-closed: a template that references a condition the rule does not
/// define is never selected, whatever verdicts the evaluator gives — and so
/// for every payload.
pub proof fn lemma_unknown_condition_never_selected(
    conds: Seq<(Seq<char>, Seq<char>)>,
    msgs: Seq<MessageModel>,
    vs: Seq<bool>,
    msg: MessageModel,
)
    requires
        msg.condition matches Some(name) && spec_condition_lookup(conds, name) is None,
    ensures
        !spec_selected(conds, msgs, vs).contains(msg),
    decreases msgs.len(),
{
    if msgs.len() == 0 {
    } else {
        lemma_unknown_condition_never_selected(conds, msgs.drop_last(), vs.drop_last(), msg);
        let prefix = spec_selected(conds, msgs.drop_last(), vs.drop_last());
        if spec_template_selected(conds, msgs.last(), vs.last()) {
            let cur = prefix.push(msgs.last());
            if cur.contains(msg) {
                let i = choose|i: int| 0 <= i < cur.len() && cur[i] == msg;
                if i < prefix.len() {
                    assert(prefix[i] == msg);
                    assert(prefix.contains(msg));
                } else {
                    assert(cur[i] == msgs.last());
                    assert(!spec_template_selected(conds, msg, vs.last()));
                }
                assert(false);
            }
        }
    }
}

/// A template with no condition reference always matches: it is selected
/// whatever verdicts the evaluator gives.
pub proof fn lemma_unguarded_always_selected(
    conds: Seq<(Seq<char>, Seq<char>)>,
    msgs: Seq<MessageModel>,
    vs: Seq<bool>,
    i: int,
)
    requires
        0 <= i < msgs.len(),
        vs.len() == msgs.len(),
        msgs[i].condition is None,
    ensures
        spec_selected(conds, msgs, vs).contains(msgs[i]),
    decreases msgs.len(),
{
    let prefix = spec_selected(conds, msgs.drop_last(), vs.drop_last());
    if i == msgs.len() - 1 {
        assert(spec_template_selected(conds, msgs.last(), vs.last()));
        let cur = prefix.push(msgs.last());
        assert(cur[prefix.len() as int] == msgs.last());
        assert(cur.contains(msgs[i]));
    } else {
        lemma_unguarded_always_selected(conds, msgs.drop_last(), vs.drop_last(), i);
        assert(msgs.drop_last()[i] == msgs[i]);
        let j = choose|j: int| 0 <= j < prefix.len() && prefix[j] == msgs[i];
        if spec_template_selected(conds, msgs.last(), vs.last()) {
            let cur = prefix.push(msgs.last());
            assert(cur[j] == msgs[i]);
            assert(cur.contains(msgs[i]));
        }
    }
}

impl MappingMessage {
    /// Reads one template from a sequence entry of a parsed document; `None`
    /// when the entry lacks a text `topic` or a text `message`.
    pub fn from_yaml(item: &YamlNode) -> (r: Option<MappingMessage>)
        ensures
            match r {
                Some(m) => spec_message_of(*item) == Some(m@),
                None => spec_message_of(*item) is None,
            },
    {
        let topic = match text_field(item, "topic") {
            Some(t) => t.clone(),
            None => {
                return None;
            },
        };
        let message = match text_field(item, "message") {
            Some(m) => m.clone(),
            None => {
                return None;
            },
        };
        let condition = match text_field(item, "condition") {
            Some(c) => Some(c.clone()),
            None => None,
        };
        Some(MappingMessage { condition, topic, message })
    }
}

/// Reads the condition map of a parsed document.
fn parse_conditions(doc: &YamlNode) -> (r: Vec<(String, String)>)
    ensures
        r@.map_values(|p: (String, String)| (p.0@, p.1@)) == spec_conditions_of(*doc),
{
    let mut out: Vec<(String, String)> = Vec::new();
    proof {
        assert(out@.map_values(|p: (String, String)| (p.0@, p.1@)) =~= Seq::<
            (Seq<char>, Seq<char>),
        >::empty());
    }
    let pairs = match crate::yaml::field(doc, "conditions") {
        Some(YamlNode::Assoc(pairs)) => pairs,
        _ => {
            return out;
        },
    };
    let mut i: usize = 0;
    proof {
        assert(pairs@.take(0) =~= Seq::<(YamlNode, YamlNode)>::empty());
    }
    while i < pairs.len()
        invariant
            i <= pairs@.len(),
            spec_conditions_of(*doc) == spec_condition_pairs(pairs@),
            out@.map_values(|p: (String, String)| (p.0@, p.1@)) == spec_condition_pairs(
                pairs@.take(i as int),
            ),
        decreases pairs@.len() - i,
    {
        proof {
            assert(pairs@.take(i as int + 1).drop_last() =~= pairs@.take(i as int));
            assert(pairs@.take(i as int + 1).last() == pairs@[i as int]);
        }
        let pair = &pairs[i];
        match (&pair.0, &pair.1) {
            (YamlNode::Text(k), YamlNode::Text(v)) => {
                out.push((k.clone(), v.clone()));
                proof {
                    assert(out@.map_values(|p: (String, String)| (p.0@, p.1@))
                        =~= spec_condition_pairs(pairs@.take(i as int)).push((k@, v@)));
                }
            },
            _ => {},
        }
        i = i + 1;
    }
    proof {
        assert(pairs@.take(pairs@.len() as int) =~= pairs@);
    }
    out
}

/// Reads the template sequence of a parsed document.
fn parse_messages(doc: &YamlNode) -> (r: Vec<MappingMessage>)
    ensures
        r@.map_values(|m: MappingMessage| m@) == spec_messages_of(*doc),
{
    let mut out: Vec<MappingMessage> = Vec::new();
    proof {
        assert(out@.map_values(|m: MappingMessage| m@) =~= Seq::<MessageModel>::empty());
    }
    let items = match crate::yaml::field(doc, "messages") {
        Some(YamlNode::List(items)) => items,
        _ => {
            return out;
        },
    };
    let mut i: usize = 0;
    proof {
        assert(items@.take(0) =~= Seq::<YamlNode>::empty());
    }
    while i < items.len()
        invariant
            i <= items@.len(),
            spec_messages_of(*doc) == spec_message_items(items@),
            out@.map_values(|m: MappingMessage| m@) == spec_message_items(
                items@.take(i as int),
            ),
        decreases items@.len() - i,
    {
        proof {
            assert(items@.take(i as int + 1).drop_last() =~= items@.take(i as int));
            assert(items@.take(i as int + 1).last() == items@[i as int]);
        }
        match MappingMessage::from_yaml(&items[i]) {
            Some(m) => {
                let ghost mm = m@;
                out.push(m);
                proof {
                    assert(out@.map_values(|m: MappingMessage| m@) =~= spec_message_items(
                        items@.take(i as int),
                    ).push(mm));
                }
            },
            None => {},
        }
        i = i + 1;
    }
    proof {
        assert(items@.take(items@.len() as int) =~= items@);
    }
    out
}

} // verus!
