//! Delivery of outbound messages: the address, the question that an answer is
//! awaited for, the command that an owner is asked to allow, the files, and how
//! often a failed delivery is tried again.

use vstd::prelude::*;

use crate::channels::{
    AdapterRegistry, Address, AddressView, OutboundDelivery, OutboundFile, OutboundFileView,
};
use crate::json;
use crate::json::{Fields, Json};
use crate::protocol::content;
use crate::protocol::content::{
    ContentError, Operation, OperationView, OutboundContent, OutboundView, Routing, RoutingView,
};
use crate::protocol::frame::copy_fields;
use crate::protocol::ids::MessageOutId;
use crate::session::{OutboundMessage, OutboundMessageView};
use crate::text;

verus! {

broadcast use vstd::string::group_string_axioms;

/// After this many failed attempts a message has failed.
pub const MAX_DELIVERY_ATTEMPTS: u32 = 3;

/// A part of a routing: the message's own, else the session's.
pub open spec fn picked(own: Option<Seq<char>>, default: Option<Seq<char>>) -> Option<Seq<char>> {
    match own {
        Some(v) => Some(v),
        None => default,
    }
}

/// The routing that fills the gaps of a message's own: open where the session
/// has none.
pub open spec fn fallback(default: Option<RoutingView>) -> RoutingView {
    match default {
        Some(routing) => routing,
        None => content::open_routing(),
    }
}

/// The channel and the address of a message: its own routing wins part by part,
/// and the session's fills the gaps. There is none without a channel or without
/// a conversation.
pub open spec fn address_of(own: RoutingView, default: Option<RoutingView>) -> Option<
    (Seq<char>, AddressView),
> {
    let rest = fallback(default);
    match (
        picked(own.channel_type, rest.channel_type),
        picked(own.platform_id, rest.platform_id),
    ) {
        (Some(channel_type), Some(platform_id)) => Some(
            (
                channel_type,
                AddressView { platform_id, thread_id: picked(own.thread_id, rest.thread_id) },
            ),
        ),
        _ => None,
    }
}

/// The routing behind an optional reference.
pub open spec fn opt_routing(routing: Option<&Routing>) -> Option<RoutingView> {
    match routing {
        Some(r) => Some(r@),
        None => None,
    }
}

fn pick(own: &Option<String>, default: Option<&Option<String>>) -> (r: Option<String>)
    ensures
        text::opt_view(r) == picked(
            text::opt_view(*own),
            match default {
                Some(d) => text::opt_view(*d),
                None => None,
            },
        ),
{
    match own {
        Some(v) => Some(v.clone()),
        None => match default {
            Some(d) => text::clone_opt(d),
            None => None,
        },
    }
}

/// The channel and the address of a message.
pub fn resolve_address(message_routing: &Routing, default_routing: Option<&Routing>) -> (r: Option<
    (String, Address),
>)
    ensures
        match r {
            Some((channel_type, address)) => address_of(
                message_routing@,
                opt_routing(default_routing),
            ) == Some((channel_type@, address@)),
            None => address_of(message_routing@, opt_routing(default_routing)) is None,
        },
{
    let (channel_type, platform_id, thread_id) = match default_routing {
        Some(d) => (
            pick(&message_routing.channel_type, Some(&d.channel_type)),
            pick(&message_routing.platform_id, Some(&d.platform_id)),
            pick(&message_routing.thread_id, Some(&d.thread_id)),
        ),
        None => (
            pick(&message_routing.channel_type, None),
            pick(&message_routing.platform_id, None),
            pick(&message_routing.thread_id, None),
        ),
    };
    match (channel_type, platform_id) {
        (Some(channel_type), Some(platform_id)) => Some(
            (channel_type, Address { platform_id, thread_id }),
        ),
        _ => None,
    }
}

/// A question that is to be registered before it is delivered, so that an
/// answer from anywhere finds its way back.
pub struct QuestionDraft {
    pub question_id: String,
    pub title: String,
    pub options: Vec<String>,
    pub routing: Routing,
}

/// The mathematical value of a [`QuestionDraft`].
#[verifier::ext_equal]
pub struct QuestionDraftView {
    pub question_id: Seq<char>,
    pub title: Seq<char>,
    pub options: Seq<Seq<char>>,
    pub routing: RoutingView,
}

impl QuestionDraft {
    pub open spec fn view(&self) -> QuestionDraftView {
        QuestionDraftView {
            question_id: self.question_id@,
            title: self.title@,
            options: text::views(self.options@),
            routing: self.routing@,
        }
    }
}

/// A command that is to be kept before its card is delivered, so that an owner who
/// allows it finds it.
pub struct ApprovalDraft {
    pub approval_id: String,
    pub command: String,
    pub args: Vec<(String, Json)>,
    pub summary: String,
    pub routing: Routing,
}

/// The mathematical value of an [`ApprovalDraft`].
#[verifier::ext_equal]
pub struct ApprovalDraftView {
    pub approval_id: Seq<char>,
    pub command: Seq<char>,
    pub args: Fields,
    pub summary: Seq<char>,
    pub routing: RoutingView,
}

impl ApprovalDraft {
    pub open spec fn view(&self) -> ApprovalDraftView {
        ApprovalDraftView {
            approval_id: self.approval_id@,
            command: self.command@,
            args: json::fields_view(self.args@),
            summary: self.summary@,
            routing: self.routing@,
        }
    }
}

/// A delivery that is ready to be handed to its channel.
pub struct Prepared {
    pub channel_type: String,
    pub address: Address,
    pub content: OutboundContent,
    pub question: Option<QuestionDraft>,
    pub approval: Option<ApprovalDraft>,
}

/// The mathematical value of a [`Prepared`].
#[verifier::ext_equal]
pub struct PreparedView {
    pub channel_type: Seq<char>,
    pub address: AddressView,
    pub content: OutboundView,
    pub question: Option<QuestionDraftView>,
    pub approval: Option<ApprovalDraftView>,
}

impl Prepared {
    pub open spec fn view(&self) -> PreparedView {
        PreparedView {
            channel_type: self.channel_type@,
            address: self.address@,
            content: self.content@,
            question: match self.question {
                Some(q) => Some(q@),
                None => None,
            },
            approval: match self.approval {
                Some(a) => Some(a@),
                None => None,
            },
        }
    }
}

/// The routing of an address on a channel.
pub open spec fn routing_to(channel_type: Seq<char>, address: AddressView) -> RoutingView {
    RoutingView {
        channel_type: Some(channel_type),
        platform_id: Some(address.platform_id),
        thread_id: address.thread_id,
    }
}

fn route_to(channel_type: &str, address: &Address) -> (r: Routing)
    ensures
        r@ == routing_to(channel_type@, address@),
{
    Routing {
        channel_type: Some(channel_type.to_owned()),
        platform_id: Some(address.platform_id.clone()),
        thread_id: text::clone_opt(&address.thread_id),
    }
}

/// The question that a content asks at an address, if it asks one.
pub open spec fn question_of(
    content: OutboundView,
    channel_type: Seq<char>,
    address: AddressView,
) -> Option<QuestionDraftView> {
    match content.operation {
        Some(OperationView::AskQuestion { question_id, title, options, .. }) => Some(
            QuestionDraftView {
                question_id,
                title,
                options,
                routing: routing_to(channel_type, address),
            },
        ),
        _ => None,
    }
}

/// The command that a content asks leave for at an address, if it asks for one.
pub open spec fn approval_of(
    content: OutboundView,
    channel_type: Seq<char>,
    address: AddressView,
) -> Option<ApprovalDraftView> {
    match content.operation {
        Some(OperationView::Approval { approval_id, command, args, summary }) => Some(
            ApprovalDraftView {
                approval_id,
                command,
                args,
                summary,
                routing: routing_to(channel_type, address),
            },
        ),
        _ => None,
    }
}

/// A delivery made ready, or the reason why the attempt failed.
pub open spec fn prepared_of(
    own: RoutingView,
    default: Option<RoutingView>,
    raw: Seq<char>,
) -> Result<PreparedView, Seq<char>> {
    match address_of(own, default) {
        None => Err("no destination: message and session routing are both empty"@),
        Some((channel_type, address)) => match content::outbound_meaning(raw) {
            Err(reason) => Err("malformed outbound content: "@ + reason),
            Ok(content) => Ok(
                PreparedView {
                    channel_type,
                    address,
                    content,
                    question: question_of(content, channel_type, address),
                    approval: approval_of(content, channel_type, address),
                },
            ),
        },
    }
}

/// Makes a delivery ready; every failure is a reason for the retry counter.
pub fn prepare(message_routing: &Routing, default_routing: Option<&Routing>, raw: &str) -> (r:
    Result<Prepared, String>)
    ensures
        match r {
            Ok(p) => prepared_of(message_routing@, opt_routing(default_routing), raw@) == Ok::<
                PreparedView,
                Seq<char>,
            >(p@),
            Err(reason) => prepared_of(message_routing@, opt_routing(default_routing), raw@)
                == Err::<PreparedView, Seq<char>>(reason@),
        },
{
    let (channel_type, address) = match resolve_address(message_routing, default_routing) {
        Some(found) => found,
        None => {
            return Err("no destination: message and session routing are both empty".to_owned());
        },
    };
    let content = match OutboundContent::parse(raw) {
        Ok(content) => content,
        Err(ContentError::Malformed { reason, .. }) => {
            return Err(text::concat2("malformed outbound content: ", &reason));
        },
    };
    let question = match &content.operation {
        Some(Operation::AskQuestion { question_id, title, options, .. }) => {
            let options = text::clone_list(options);
            Some(
                QuestionDraft {
                    question_id: question_id.clone(),
                    title: title.clone(),
                    options,
                    routing: route_to(&channel_type, &address),
                },
            )
        },
        _ => None,
    };
    let approval = match &content.operation {
        Some(Operation::Approval { approval_id, command, args, summary }) => Some(
            ApprovalDraft {
                approval_id: approval_id.clone(),
                command: command.clone(),
                args: copy_fields(args),
                summary: summary.clone(),
                routing: route_to(&channel_type, &address),
            },
        ),
        _ => None,
    };
    Ok(Prepared { channel_type, address, content, question, approval })
}

// ---------------------------------------------------------------------------
// Files

/// The mathematical values of some files.
pub open spec fn files_view(files: Seq<OutboundFile>) -> Seq<OutboundFileView> {
    files.map_values(|f: OutboundFile| f@)
}

/// Whether files stand in the order of their names.
pub open spec fn by_name(files: Seq<OutboundFileView>) -> bool {
    forall|i: int, j: int|
        0 <= i < j < files.len() ==> !text::before(
            (#[trigger] files[j]).name,
            (#[trigger] files[i]).name,
        )
}

/// The files of one name.
pub open spec fn named(files: Seq<OutboundFileView>, name: Seq<char>) -> Seq<OutboundFileView> {
    files.filter(|f: OutboundFileView| f.name == name)
}

/// Whether files are others in the order of their names; those of one name keep
/// the order that they had.
pub open spec fn sorted_from(now: Seq<OutboundFileView>, was: Seq<OutboundFileView>) -> bool {
    &&& by_name(now)
    &&& now.to_multiset() == was.to_multiset()
    &&& forall|name: Seq<char>| #[trigger] named(now, name) == named(was, name)
}

/// Puts files in the order of their names.
pub fn sort_files(files: Vec<OutboundFile>) -> (r: Vec<OutboundFile>)
    ensures
        sorted_from(files_view(r@), files_view(files@)),
{
    let mut out: Vec<OutboundFile> = Vec::new();
    let ghost all = files_view(files@);
    let mut i: usize = 0;
    proof {
        assert(files_view(out@) =~= Seq::empty());
        assert(all.take(0) =~= Seq::empty());
    }
    while i < files.len()
        invariant
            i <= files@.len(),
            all == files_view(files@),
            sorted_from(files_view(out@), all.take(i as int)),
        decreases files@.len() - i,
    {
        let file = files[i].clone();
        let ghost was = files_view(out@);
        let ghost value = file@;
        let mut at: usize = out.len();
        while at > 0 && text::comes_before(&file.name, &out[at - 1].name)
            invariant
                at <= out@.len(),
                was == files_view(out@),
                value == file@,
                forall|j: int|
                    at <= j < was.len() ==> text::before(value.name, (#[trigger] was[j]).name),
            decreases at,
        {
            assert(was[at - 1] == out@[at - 1]@);
            at -= 1;
        }
        proof {
            if at > 0 {
                assert(was[at - 1] == out@[at - 1]@);
            }
            lemma_insert_by_name(was, at as int, value);
            vstd::seq_lib::to_multiset_insert(was, at as int, value);
            assert(all.take(i + 1) =~= all.take(i as int).push(value));
            all.take(i as int).to_multiset_ensures();
            assert forall|name: Seq<char>| #[trigger] named(was.insert(at as int, value), name)
                == named(all.take(i + 1), name) by {
                lemma_insert_named(was, at as int, value, name);
                lemma_named_push(was, value, name);
                lemma_named_push(all.take(i as int), value, name);
                assert(named(was, name) == named(all.take(i as int), name));
            }
            assert(files_view(out@.insert(at as int, file)) =~= was.insert(at as int, value));
        }
        out.insert(at, file);
        i += 1;
    }
    assert(all.take(i as int) =~= all);
    out
}

proof fn lemma_named_push(files: Seq<OutboundFileView>, value: OutboundFileView, name: Seq<char>)
    ensures
        named(files.push(value), name) == (if value.name == name {
            named(files, name).push(value)
        } else {
            named(files, name)
        }),
{
    reveal(Seq::filter);
    assert(files.push(value).drop_last() =~= files);
}

proof fn lemma_none_named(files: Seq<OutboundFileView>, name: Seq<char>)
    requires
        forall|j: int| 0 <= j < files.len() ==> (#[trigger] files[j]).name != name,
    ensures
        named(files, name) == Seq::<OutboundFileView>::empty(),
    decreases files.len(),
{
    reveal(Seq::filter);
    if files.len() > 0 {
        lemma_none_named(files.drop_last(), name);
    }
}

proof fn lemma_insert_named(
    was: Seq<OutboundFileView>,
    at: int,
    value: OutboundFileView,
    name: Seq<char>,
)
    requires
        0 <= at <= was.len(),
        forall|j: int| at <= j < was.len() ==> text::before(value.name, (#[trigger] was[j]).name),
    ensures
        named(was.insert(at, value), name) == named(was.push(value), name),
{
    let head = was.take(at);
    let tail = was.skip(at);
    let one = |f: OutboundFileView| f.name == name;
    assert(was =~= head + tail);
    assert(was.insert(at, value) =~= head.push(value) + tail);
    Seq::filter_distributes_over_add(head, tail, one);
    Seq::filter_distributes_over_add(head.push(value), tail, one);
    lemma_named_push(head, value, name);
    lemma_named_push(was, value, name);
    if value.name == name {
        assert forall|j: int| 0 <= j < tail.len() implies (#[trigger] tail[j]).name != name by {
            assert(tail[j] == was[at + j]);
            text::lemma_before_total(value.name, was[at + j].name);
        }
        lemma_none_named(tail, name);
        assert(named(head, name).push(value) + Seq::empty() =~= named(head, name).push(value));
        assert(named(head, name) + Seq::empty() =~= named(head, name));
    }
}

proof fn lemma_insert_by_name(was: Seq<OutboundFileView>, at: int, value: OutboundFileView)
    requires
        by_name(was),
        0 <= at <= was.len(),
        forall|j: int| at <= j < was.len() ==> text::before(value.name, (#[trigger] was[j]).name),
        at > 0 ==> !text::before(value.name, was[at - 1].name),
    ensures
        by_name(was.insert(at, value)),
{
    let now = was.insert(at, value);
    assert forall|i: int, j: int| 0 <= i < j < now.len() implies !text::before(
        (#[trigger] now[j]).name,
        (#[trigger] now[i]).name,
    ) by {
        if j < at {
            assert(!text::before(was[j].name, was[i].name));
        } else if j == at {
            if i < at - 1 {
                assert(!text::before(was[at - 1].name, was[i].name));
                text::lemma_before_total(was[at - 1].name, was[i].name);
                text::lemma_before_total(value.name, was[at - 1].name);
                if text::before(value.name, was[i].name) {
                    if was[i].name != was[at - 1].name {
                        text::lemma_before_transitive(
                            value.name,
                            was[i].name,
                            was[at - 1].name,
                        );
                    }
                }
            }
        } else if i == at {
            text::lemma_before_total(value.name, was[j - 1].name);
        } else if i < at {
            assert(!text::before(was[j - 1].name, was[i].name));
        } else {
            assert(!text::before(was[j - 1].name, was[i - 1].name));
        }
    }
}

// ---------------------------------------------------------------------------
// Attempts

/// How often each message has failed to be delivered since it last succeeded or
/// was given up. Kept in memory: a restart gives every message fresh chances.
pub struct Attempts {
    counts: Vec<(MessageOutId, u32)>,
}

/// What a failed attempt leads to.
#[derive(Debug, Clone, Copy, PartialEq, Eq, Structural)]
pub enum Verdict {
    /// Try again later; so many attempts have failed.
    Retry(u32),
    /// Mark the message as failed.
    GiveUp,
}

/// The counts of a list of slots: none for a message without one.
pub open spec fn count_in(slots: Seq<(MessageOutId, u32)>, id: Seq<char>) -> int
    decreases slots.len(),
{
    if slots.len() == 0 {
        0
    } else if slots[0].0@ == id {
        slots[0].1 as int
    } else {
        count_in(slots.drop_first(), id)
    }
}

/// Whether no message has two counts.
pub open spec fn counts_ok(slots: Seq<(MessageOutId, u32)>) -> bool {
    forall|i: int, j: int|
        0 <= i < j < slots.len() ==> (#[trigger] slots[i]).0@ != (#[trigger] slots[j]).0@
}

/// A count after one more failure.
pub open spec fn raised(count: int) -> int {
    if count < u32::MAX {
        count + 1
    } else {
        count
    }
}

proof fn lemma_count_at(slots: Seq<(MessageOutId, u32)>, i: int, id: Seq<char>)
    requires
        counts_ok(slots),
        0 <= i < slots.len(),
        slots[i].0@ == id,
    ensures
        count_in(slots, id) == slots[i].1,
    decreases slots.len(),
{
    if i > 0 {
        assert(slots[0].0@ != slots[i].0@);
        let rest = slots.drop_first();
        lemma_tail_ok(slots);
        lemma_count_at(rest, i - 1, id);
    }
}

proof fn lemma_tail_ok(slots: Seq<(MessageOutId, u32)>)
    requires
        counts_ok(slots),
        slots.len() > 0,
    ensures
        counts_ok(slots.drop_first()),
{
    let rest = slots.drop_first();
    assert forall|i: int, j: int| 0 <= i < j < rest.len() implies (#[trigger] rest[i]).0@ != (
    #[trigger] rest[j]).0@ by {
        assert(slots[i + 1].0@ != slots[j + 1].0@);
    }
}

proof fn lemma_count_absent(slots: Seq<(MessageOutId, u32)>, id: Seq<char>)
    requires
        forall|i: int| 0 <= i < slots.len() ==> (#[trigger] slots[i]).0@ != id,
    ensures
        count_in(slots, id) == 0,
    decreases slots.len(),
{
    if slots.len() > 0 {
        assert(slots[0].0@ != id);
        let rest = slots.drop_first();
        assert forall|i: int| 0 <= i < rest.len() implies (#[trigger] rest[i]).0@ != id by {
            assert(rest[i] == slots[i + 1]);
        }
        lemma_count_absent(rest, id);
    }
}

proof fn lemma_counts_same(
    a: Seq<(MessageOutId, u32)>,
    b: Seq<(MessageOutId, u32)>,
    id: Seq<char>,
)
    requires
        counts_ok(a),
        counts_ok(b),
        forall|i: int|
            0 <= i < a.len() && (#[trigger] a[i]).0@ == id ==> exists|j: int|
                0 <= j < b.len() && (#[trigger] b[j]).0@ == id && b[j].1 == a[i].1,
        forall|j: int|
            0 <= j < b.len() && (#[trigger] b[j]).0@ == id ==> exists|i: int|
                0 <= i < a.len() && (#[trigger] a[i]).0@ == id && a[i].1 == b[j].1,
    ensures
        count_in(a, id) == count_in(b, id),
{
    if exists|i: int| 0 <= i < a.len() && (#[trigger] a[i]).0@ == id {
        let i = choose|i: int| 0 <= i < a.len() && (#[trigger] a[i]).0@ == id;
        lemma_count_at(a, i, id);
        let j = choose|j: int| 0 <= j < b.len() && (#[trigger] b[j]).0@ == id && b[j].1 == a[i].1;
        lemma_count_at(b, j, id);
    } else {
        lemma_count_absent(a, id);
        lemma_count_absent(b, id);
    }
}

impl Attempts {
    /// How often a message has failed.
    pub closed spec fn count(&self, id: Seq<char>) -> int {
        count_in(self.counts@, id)
    }

    /// Whether no message is counted twice.
    pub closed spec fn well_formed(&self) -> bool {
        counts_ok(self.counts@)
    }

    /// No message has failed.
    pub fn new() -> (r: Self)
        ensures
            r.well_formed(),
            forall|id: Seq<char>| #[trigger] r.count(id) == 0,
    {
        Attempts { counts: Vec::new() }
    }

    fn position(&self, id: &MessageOutId) -> (r: Option<usize>)
        ensures
            match r {
                Some(i) => i < self.counts@.len() && self.counts@[i as int].0@ == id@,
                None => forall|i: int|
                    0 <= i < self.counts@.len() ==> (#[trigger] self.counts@[i]).0@ != id@,
            },
    {
        let mut i: usize = 0;
        while i < self.counts.len()
            invariant
                i <= self.counts@.len(),
                forall|j: int| 0 <= j < i ==> (#[trigger] self.counts@[j]).0@ != id@,
            decreases self.counts@.len() - i,
        {
            if text::same(self.counts[i].0.as_str(), id.as_str()) {
                return Some(i);
            }
            i += 1;
        }
        None
    }

    /// What became of a message is written down: its failures are forgotten.
    pub fn forget(&mut self, id: &MessageOutId)
        requires
            old(self).well_formed(),
        ensures
            final(self).well_formed(),
            final(self).count(id@) == 0,
            forall|other: Seq<char>|
                other != id@ ==> #[trigger] final(self).count(other) == old(self).count(other),
    {
        let ghost was = self.counts@;
        match self.position(id) {
            Some(i) => {
                self.counts.remove(i);
                proof {
                    let now = self.counts@;
                    assert(now =~= was.remove(i as int));
                    lemma_remove(was, i as int, id@);
                }
            },
            None => {
                proof {
                    lemma_count_absent(was, id@);
                }
            },
        }
    }

    /// A delivery failed: one more attempt, and from the third on the message is
    /// given up. The count stays until it is forgotten.
    pub fn failed(&mut self, id: &MessageOutId) -> (r: Verdict)
        requires
            old(self).well_formed(),
        ensures
            final(self).well_formed(),
            final(self).count(id@) == raised(old(self).count(id@)),
            match r {
                Verdict::Retry(n) => n == raised(old(self).count(id@)) && n < MAX_DELIVERY_ATTEMPTS,
                Verdict::GiveUp => raised(old(self).count(id@)) >= MAX_DELIVERY_ATTEMPTS,
            },
            forall|other: Seq<char>|
                other != id@ ==> #[trigger] final(self).count(other) == old(self).count(other),
    {
        let ghost was = self.counts@;
        match self.position(id) {
            Some(i) => {
                proof {
                    lemma_count_at(was, i as int, id@);
                }
                let count: u32 = self.counts[i].1;
                let attempts: u32 = if count < u32::MAX {
                    count + 1
                } else {
                    count
                };
                let slot = (id.clone(), attempts);
                self.counts.set(i, slot);
                proof {
                    assert(self.counts@ =~= was.update(i as int, slot));
                    lemma_set(was, i as int, slot);
                }
                if attempts >= MAX_DELIVERY_ATTEMPTS {
                    Verdict::GiveUp
                } else {
                    Verdict::Retry(attempts)
                }
            },
            None => {
                proof {
                    lemma_count_absent(was, id@);
                }
                let slot = (id.clone(), 1u32);
                self.counts.push(slot);
                proof {
                    lemma_add(was, slot);
                }
                Verdict::Retry(1)
            },
        }
    }
}

proof fn lemma_remove(was: Seq<(MessageOutId, u32)>, i: int, id: Seq<char>)
    requires
        counts_ok(was),
        0 <= i < was.len(),
        was[i].0@ == id,
    ensures
        counts_ok(was.remove(i)),
        count_in(was.remove(i), id) == 0,
        forall|other: Seq<char>|
            other != id ==> #[trigger] count_in(was.remove(i), other) == count_in(was, other),
{
    let now = was.remove(i);
    assert forall|k: int| 0 <= k < now.len() implies (#[trigger] now[k]).0@ != id by {
        if k < i {
            assert(now[k] == was[k]);
            assert(was[k].0@ != was[i].0@);
        } else {
            assert(now[k] == was[k + 1]);
            assert(was[i].0@ != was[k + 1].0@);
        }
    }
    assert forall|a: int, b: int| 0 <= a < b < now.len() implies (#[trigger] now[a]).0@ != (
    #[trigger] now[b]).0@ by {
        let x = if a < i {
            a
        } else {
            a + 1
        };
        let y = if b < i {
            b
        } else {
            b + 1
        };
        assert(now[a] == was[x] && now[b] == was[y]);
        assert(was[x].0@ != was[y].0@);
    }
    lemma_count_absent(now, id);
    assert forall|other: Seq<char>| other != id implies #[trigger] count_in(now, other) == count_in(
        was,
        other,
    ) by {
        assert forall|k: int| 0 <= k < now.len() && (#[trigger] now[k]).0@ == other implies exists|
            j: int,
        |
            0 <= j < was.len() && (#[trigger] was[j]).0@ == other && was[j].1 == now[k].1 by {
            let j = if k < i {
                k
            } else {
                k + 1
            };
            assert(was[j] == now[k]);
        }
        assert forall|j: int| 0 <= j < was.len() && (#[trigger] was[j]).0@ == other implies exists|
            k: int,
        |
            0 <= k < now.len() && (#[trigger] now[k]).0@ == other && now[k].1 == was[j].1 by {
            let k = if j < i {
                j
            } else {
                j - 1
            };
            assert(now[k] == was[j]);
        }
        lemma_counts_same(now, was, other);
    }
}

proof fn lemma_set(was: Seq<(MessageOutId, u32)>, i: int, slot: (MessageOutId, u32))
    requires
        counts_ok(was),
        0 <= i < was.len(),
        was[i].0@ == slot.0@,
    ensures
        counts_ok(was.update(i, slot)),
        count_in(was.update(i, slot), slot.0@) == slot.1,
        forall|other: Seq<char>|
            other != slot.0@ ==> #[trigger] count_in(was.update(i, slot), other) == count_in(
                was,
                other,
            ),
{
    let now = was.update(i, slot);
    assert forall|a: int, b: int| 0 <= a < b < now.len() implies (#[trigger] now[a]).0@ != (
    #[trigger] now[b]).0@ by {
        assert(was[a].0@ != was[b].0@);
    }
    lemma_count_at(now, i, slot.0@);
    assert forall|other: Seq<char>| other != slot.0@ implies #[trigger] count_in(now, other)
        == count_in(was, other) by {
        assert forall|k: int| 0 <= k < now.len() && (#[trigger] now[k]).0@ == other implies exists|
            j: int,
        |
            0 <= j < was.len() && (#[trigger] was[j]).0@ == other && was[j].1 == now[k].1 by {
            assert(was[k] == now[k]);
        }
        assert forall|j: int| 0 <= j < was.len() && (#[trigger] was[j]).0@ == other implies exists|
            k: int,
        |
            0 <= k < now.len() && (#[trigger] now[k]).0@ == other && now[k].1 == was[j].1 by {
            assert(now[j] == was[j]);
        }
        lemma_counts_same(now, was, other);
    }
}

proof fn lemma_add(was: Seq<(MessageOutId, u32)>, slot: (MessageOutId, u32))
    requires
        counts_ok(was),
        forall|i: int| 0 <= i < was.len() ==> (#[trigger] was[i]).0@ != slot.0@,
    ensures
        counts_ok(was.push(slot)),
        count_in(was.push(slot), slot.0@) == slot.1,
        forall|other: Seq<char>|
            other != slot.0@ ==> #[trigger] count_in(was.push(slot), other) == count_in(was, other),
{
    let now = was.push(slot);
    assert forall|a: int, b: int| 0 <= a < b < now.len() implies (#[trigger] now[a]).0@ != (
    #[trigger] now[b]).0@ by {
        assert(was[a].0@ == now[a].0@);
        if b < was.len() {
            assert(was[a].0@ != was[b].0@);
        }
    }
    lemma_count_at(now, was.len() as int, slot.0@);
    assert forall|other: Seq<char>| other != slot.0@ implies #[trigger] count_in(now, other)
        == count_in(was, other) by {
        assert forall|k: int| 0 <= k < now.len() && (#[trigger] now[k]).0@ == other implies exists|
            j: int,
        |
            0 <= j < was.len() && (#[trigger] was[j]).0@ == other && was[j].1 == now[k].1 by {
            assert(was[k] == now[k]);
        }
        assert forall|j: int| 0 <= j < was.len() && (#[trigger] was[j]).0@ == other implies exists|
            k: int,
        |
            0 <= k < now.len() && (#[trigger] now[k]).0@ == other && now[k].1 == was[j].1 by {
            assert(now[j] == was[j]);
        }
        lemma_counts_same(now, was, other);
    }
}

// ---------------------------------------------------------------------------
// One attempt, step by step

/// What is handed to a channel, but for the files.
pub struct Parcel {
    pub kind: String,
    pub channel_type: String,
    pub address: Address,
    pub content: OutboundContent,
}

/// The mathematical value of a [`Parcel`].
#[verifier::ext_equal]
pub struct ParcelView {
    pub kind: Seq<char>,
    pub channel_type: Seq<char>,
    pub address: AddressView,
    pub content: OutboundView,
}

impl Parcel {
    pub open spec fn view(&self) -> ParcelView {
        ParcelView {
            kind: self.kind@,
            channel_type: self.channel_type@,
            address: self.address@,
            content: self.content@,
        }
    }
}

/// What an attempt to deliver a message goes on with.
pub enum AttemptStep {
    /// Register the question, so that its answer finds the session.
    Register { question: QuestionDraft, parcel: Parcel },
    /// Keep the command, so that an owner can allow it.
    Hold { approval: ApprovalDraft, parcel: Parcel },
    /// Look for the files of the message.
    Collect(Parcel),
    /// Hand the delivery to the adapter at a place of the registry.
    Send { adapter: usize, address: Address, delivery: OutboundDelivery },
    /// The attempt failed.
    Failed(String),
}

/// The mathematical value of an [`AttemptStep`], the files of a delivery apart.
#[verifier::ext_equal]
pub enum AttemptStepView {
    Register { question: QuestionDraftView, parcel: ParcelView },
    Hold { approval: ApprovalDraftView, parcel: ParcelView },
    Collect(ParcelView),
    Send { adapter: int, address: AddressView, kind: Seq<char>, content: OutboundView },
    Failed(Seq<char>),
}

impl AttemptStep {
    pub open spec fn view(&self) -> AttemptStepView {
        match self {
            AttemptStep::Register { question, parcel } => AttemptStepView::Register {
                question: question@,
                parcel: parcel@,
            },
            AttemptStep::Hold { approval, parcel } => AttemptStepView::Hold {
                approval: approval@,
                parcel: parcel@,
            },
            AttemptStep::Collect(parcel) => AttemptStepView::Collect(parcel@),
            AttemptStep::Send { adapter, address, delivery } => AttemptStepView::Send {
                adapter: *adapter as int,
                address: address@,
                kind: delivery.kind@,
                content: delivery.content@,
            },
            AttemptStep::Failed(reason) => AttemptStepView::Failed(reason@),
        }
    }
}

/// The routing of a session, or why it could not be read.
pub open spec fn session_view(session: Result<Option<Routing>, String>) -> Result<
    Option<RoutingView>,
    Seq<char>,
> {
    match session {
        Ok(Some(routing)) => Ok(Some(routing@)),
        Ok(None) => Ok(None),
        Err(reason) => Err(reason@),
    }
}

/// How an attempt begins: a question is registered and a command is kept before
/// anything is sent, and any other message goes on to its files.
pub open spec fn first_step(
    message: OutboundMessageView,
    session: Result<Option<RoutingView>, Seq<char>>,
) -> AttemptStepView {
    match session {
        Err(reason) => AttemptStepView::Failed(reason),
        Ok(default) => match prepared_of(message.routing, default, message.content) {
            Err(reason) => AttemptStepView::Failed(reason),
            Ok(ready) => {
                let parcel = ParcelView {
                    kind: message.kind,
                    channel_type: ready.channel_type,
                    address: ready.address,
                    content: ready.content,
                };
                match (ready.question, ready.approval) {
                    (Some(question), _) => AttemptStepView::Register { question, parcel },
                    (None, Some(approval)) => AttemptStepView::Hold { approval, parcel },
                    (None, None) => AttemptStepView::Collect(parcel),
                }
            },
        },
    }
}

/// How an attempt goes on once its files are known: to the adapter of its
/// channel, or to its failure where there is none.
pub open spec fn send_step(parcel: ParcelView, channels: Seq<Seq<char>>) -> AttemptStepView {
    match crate::channels::place_of(channels, parcel.channel_type) {
        Some(adapter) => AttemptStepView::Send {
            adapter,
            address: parcel.address,
            kind: parcel.kind,
            content: parcel.content,
        },
        None => AttemptStepView::Failed(
            "no adapter registered for channel type "@ + text::quoted(parcel.channel_type),
        ),
    }
}

/// Begins an attempt. `session` is the routing of the message's session, or why
/// it could not be read.
pub fn begin_attempt(message: &OutboundMessage, session: &Result<Option<Routing>, String>) -> (r:
    AttemptStep)
    ensures
        r@ == first_step(message@, session_view(*session)),
{
    let default = match session {
        Err(reason) => {
            return AttemptStep::Failed(reason.clone());
        },
        Ok(Some(routing)) => Some(routing),
        Ok(None) => None,
    };
    match prepare(&message.routing, default, &message.content) {
        Err(reason) => AttemptStep::Failed(reason),
        Ok(ready) => {
            let parcel = Parcel {
                kind: message.kind.clone(),
                channel_type: ready.channel_type,
                address: ready.address,
                content: ready.content,
            };
            match (ready.question, ready.approval) {
                (Some(question), _) => AttemptStep::Register { question, parcel },
                (None, Some(approval)) => AttemptStep::Hold { approval, parcel },
                (None, None) => AttemptStep::Collect(parcel),
            }
        },
    }
}

/// Goes on after the question was registered or the command kept, or could not be.
pub fn after_register(parcel: Parcel, registered: Result<(), String>) -> (r: AttemptStep)
    ensures
        r@ == (match registered {
            Ok(_) => AttemptStepView::Collect(parcel@),
            Err(reason) => AttemptStepView::Failed(reason@),
        }),
{
    match registered {
        Ok(_) => AttemptStep::Collect(parcel),
        Err(reason) => AttemptStep::Failed(reason),
    }
}

/// Goes on with the files of the message: they are sent in the order of their
/// names.
pub fn after_collect(parcel: Parcel, files: Vec<OutboundFile>, registry: &AdapterRegistry) -> (r:
    AttemptStep)
    ensures
        r@ == send_step(parcel@, registry@),
        r matches AttemptStep::Send { delivery, .. } ==> sorted_from(
            files_view(delivery.files@),
            files_view(files@),
        ),
{
    match registry.get(&parcel.channel_type) {
        Err(error) => AttemptStep::Failed(error.message()),
        Ok(adapter) => AttemptStep::Send {
            adapter,
            address: parcel.address,
            delivery: OutboundDelivery {
                kind: parcel.kind,
                content: parcel.content,
                files: sort_files(files),
            },
        },
    }
}

/// What an attempt comes to.
pub enum Conclusion {
    /// Mark the message as delivered and remove its files; then forget its failures.
    Delivered { platform_message_id: Option<String> },
    /// Leave the message for a later attempt.
    Retry { attempts: u32, reason: String },
    /// Mark the message as failed; then forget its failures.
    GiveUp { reason: String },
}

/// Concludes an attempt: a failure counts. The count stays until what became of
/// the message is written down, and is forgotten then.
pub fn conclude(
    attempts: &mut Attempts,
    id: &MessageOutId,
    result: Result<Option<String>, String>,
) -> (r: Conclusion)
    requires
        old(attempts).well_formed(),
    ensures
        final(attempts).well_formed(),
        ({
            let failures = raised(old(attempts).count(id@));
            match result {
                Ok(sent) => {
                    &&& r matches Conclusion::Delivered { platform_message_id }
                    &&& platform_message_id == sent
                    &&& final(attempts).count(id@) == old(attempts).count(id@)
                },
                Err(why) => if failures < MAX_DELIVERY_ATTEMPTS {
                    &&& r matches Conclusion::Retry { attempts: n, reason }
                    &&& n == failures
                    &&& reason == why
                    &&& final(attempts).count(id@) == failures
                } else {
                    &&& r matches Conclusion::GiveUp { reason }
                    &&& reason == why
                    &&& final(attempts).count(id@) == failures
                },
            }
        }),
        forall|other: Seq<char>|
            other != id@ ==> #[trigger] final(attempts).count(other) == old(attempts).count(other),
{
    match result {
        Ok(platform_message_id) => Conclusion::Delivered { platform_message_id },
        Err(reason) => match attempts.failed(id) {
            Verdict::Retry(n) => Conclusion::Retry { attempts: n, reason },
            Verdict::GiveUp => Conclusion::GiveUp { reason },
        },
    }
}

// ---------------------------------------------------------------------------
// Laws

/// A message's own routing wins part by part.
pub proof fn own_routing_wins(own: RoutingView, default: Option<RoutingView>)
    ensures
        address_of(own, default) matches Some((channel_type, address)) ==> {
            &&& own.channel_type is Some ==> own.channel_type == Some(channel_type)
            &&& own.platform_id is Some ==> own.platform_id == Some(address.platform_id)
            &&& own.thread_id is Some ==> own.thread_id == address.thread_id
        },
        own.channel_type is Some && own.platform_id is Some ==> address_of(own, default) is Some,
{
}

/// Without a routing of its own a message goes where the session's routing says,
/// and nowhere if that is open too.
pub proof fn session_routing_fills_the_gaps(default: RoutingView)
    ensures
        default.channel_type is Some && default.platform_id is Some ==> address_of(
            content::open_routing(),
            Some(default),
        ) == Some(
            (
                default.channel_type->0,
                AddressView {
                    platform_id: default.platform_id->0,
                    thread_id: default.thread_id,
                },
            ),
        ),
        address_of(content::open_routing(), None) is None,
{
}

/// No message is sent before its question is registered, and only a message that
/// asks a question registers one.
pub proof fn questions_are_registered_first(
    message: OutboundMessageView,
    session: Result<Option<RoutingView>, Seq<char>>,
)
    ensures
        !(first_step(message, session) is Send),
        first_step(message, session) matches AttemptStepView::Register { question, parcel } ==> {
            &&& parcel.content.operation matches Some(
                OperationView::AskQuestion { question_id, title, options, .. },
            )
            &&& question.question_id == question_id
            &&& question.title == title
            &&& question.options == options
        },
        first_step(message, session) matches AttemptStepView::Collect(parcel) ==> !(
        parcel.content.operation matches Some(OperationView::AskQuestion { .. })),
{
}

/// No card that asks for leave is sent before its command is kept, and what is kept
/// is what the card asks for.
pub proof fn commands_are_kept_first(
    message: OutboundMessageView,
    session: Result<Option<RoutingView>, Seq<char>>,
)
    ensures
        first_step(message, session) matches AttemptStepView::Hold { approval, parcel } ==> {
            &&& parcel.content.operation == Some(
                OperationView::Approval {
                    approval_id: approval.approval_id,
                    command: approval.command,
                    args: approval.args,
                    summary: approval.summary,
                },
            )
            &&& approval.routing == routing_to(parcel.channel_type, parcel.address)
        },
        first_step(message, session) matches AttemptStepView::Collect(parcel) ==> !(
        parcel.content.operation matches Some(OperationView::Approval { .. })),
{
}

/// A message is sent where its address says, and its answer is awaited there.
pub proof fn answers_come_back_to_the_address(
    message: OutboundMessageView,
    session: Result<Option<RoutingView>, Seq<char>>,
)
    ensures
        first_step(message, session) matches AttemptStepView::Register { question, parcel } ==> {
            &&& question.routing.channel_type == Some(parcel.channel_type)
            &&& question.routing.platform_id == Some(parcel.address.platform_id)
            &&& question.routing.thread_id == parcel.address.thread_id
        },
{
}

/// A message that never gets through is given up at the third failed attempt in
/// a row, and not before; once that is written down it may be tried afresh.
pub fn three_strikes(attempts: &mut Attempts, id: &MessageOutId) -> (r: (Verdict, Verdict, Verdict))
    requires
        old(attempts).well_formed(),
        old(attempts).count(id@) == 0,
    ensures
        final(attempts).well_formed(),
        r == (Verdict::Retry(1), Verdict::Retry(2), Verdict::GiveUp),
        final(attempts).count(id@) == 0,
{
    let first = attempts.failed(id);
    let second = attempts.failed(id);
    let third = attempts.failed(id);
    attempts.forget(id);
    (first, second, third)
}

/// A message that was given up stays so, whatever fails after it, until that is
/// written down.
pub fn given_up_until_written(attempts: &mut Attempts, id: &MessageOutId) -> (r: Verdict)
    requires
        old(attempts).well_formed(),
        old(attempts).count(id@) >= MAX_DELIVERY_ATTEMPTS,
    ensures
        final(attempts).well_formed(),
        final(attempts).count(id@) >= MAX_DELIVERY_ATTEMPTS,
        r == Verdict::GiveUp,
{
    attempts.failed(id)
}

/// Each part of an address is the message's own, or else the session's; there is an
/// address exactly when the channel and the conversation are known.
pub proof fn addresses_are_filled_part_by_part(own: RoutingView, default: RoutingView)
    ensures
        ({
            let channel = if own.channel_type is Some {
                own.channel_type
            } else {
                default.channel_type
            };
            let conversation = if own.platform_id is Some {
                own.platform_id
            } else {
                default.platform_id
            };
            let thread = if own.thread_id is Some {
                own.thread_id
            } else {
                default.thread_id
            };
            &&& address_of(own, Some(default)) is Some <==> channel is Some && conversation is Some
            &&& address_of(own, Some(default)) matches Some((channel_type, address)) ==> {
                &&& channel == Some(channel_type)
                &&& conversation == Some(address.platform_id)
                &&& thread == address.thread_id
            }
        }),
        address_of(own, None) is Some <==> own.channel_type is Some && own.platform_id is Some,
        address_of(own, None) matches Some((_, address)) ==> address.thread_id == own.thread_id,
{
}

/// An attempt carries the message as it is: its kind, its content, and the address
/// that its own and the session's routing give. It fails at once only where the
/// session cannot be read, there is no address, or the content is none.
pub proof fn attempts_carry_the_message(
    message: OutboundMessageView,
    default: Option<RoutingView>,
)
    ensures
        ({
            let step = first_step(message, Ok(default));
            let parcel = match step {
                AttemptStepView::Register { parcel, .. } => Some(parcel),
                AttemptStepView::Hold { parcel, .. } => Some(parcel),
                AttemptStepView::Collect(parcel) => Some(parcel),
                _ => None,
            };
            &&& parcel is Some <==> address_of(message.routing, default) is Some
                && content::outbound_meaning(message.content) is Ok
            &&& parcel is None ==> step is Failed
            &&& parcel matches Some(p) ==> {
                &&& p.kind == message.kind
                &&& content::outbound_meaning(message.content) == Ok::<OutboundView, Seq<char>>(
                    p.content,
                )
                &&& address_of(message.routing, default) == Some((p.channel_type, p.address))
                &&& p.content.operation matches Some(OperationView::AskQuestion { .. })
                    ==> step is Register
                &&& p.content.operation matches Some(OperationView::Approval { .. })
                    ==> step is Hold
            }
        }),
{
}

/// A parcel goes to an adapter of its own channel, to its own address and with its
/// own content; without such an adapter it is not sent.
pub proof fn parcels_go_to_their_channel(parcel: ParcelView, channels: Seq<Seq<char>>)
    ensures
        channels.contains(parcel.channel_type) <==> send_step(parcel, channels) is Send,
        !channels.contains(parcel.channel_type) ==> send_step(parcel, channels) is Failed,
        send_step(parcel, channels) matches AttemptStepView::Send {
            adapter,
            address,
            kind,
            content,
        } ==> {
            &&& 0 <= adapter < channels.len()
            &&& channels[adapter] == parcel.channel_type
            &&& address == parcel.address
            &&& kind == parcel.kind
            &&& content == parcel.content
        },
{
    crate::channels::channels_have_their_own_adapter(channels, parcel.channel_type);
}

/// A command that is held comes back to where its card was sent.
pub proof fn held_commands_come_back_to_the_address(
    message: OutboundMessageView,
    session: Result<Option<RoutingView>, Seq<char>>,
)
    ensures
        first_step(message, session) matches AttemptStepView::Hold { approval, parcel } ==> {
            &&& approval.routing.channel_type == Some(parcel.channel_type)
            &&& approval.routing.platform_id == Some(parcel.address.platform_id)
            &&& approval.routing.thread_id == parcel.address.thread_id
        },
{
}

/// Files are sent in the order of their names, all of them and no others.
pub proof fn all_files_are_sent_in_order(
    now: Seq<OutboundFileView>,
    was: Seq<OutboundFileView>,
    i: int,
    j: int,
)
    requires
        sorted_from(now, was),
    ensures
        now.len() == was.len(),
        0 <= i < was.len() ==> now.contains(was[i]),
        0 <= i < now.len() ==> was.contains(now[i]),
        0 <= i < j < now.len() ==> !text::before(now[j].name, now[i].name),
        0 <= i < j < now.len() && now[i].name != now[j].name ==> text::before(
            now[i].name,
            now[j].name,
        ),
{
    broadcast use vstd::seq_lib::group_to_multiset_ensures;

    assert(now.len() == now.to_multiset().len());
    assert(was.len() == was.to_multiset().len());
    if 0 <= i < was.len() {
        assert(was.contains(was[i]));
        assert(was.to_multiset().count(was[i]) > 0);
        assert(now.to_multiset().count(was[i]) > 0);
    }
    if 0 <= i < now.len() {
        assert(now.contains(now[i]));
        assert(now.to_multiset().count(now[i]) > 0);
        assert(was.to_multiset().count(now[i]) > 0);
    }
    if 0 <= i < j < now.len() {
        text::lemma_before_total(now[i].name, now[j].name);
    }
}

/// What keeps an attempt from being made is told as it is: why the session could not
/// be looked up, why the content could not be read, or which channel has no adapter.
pub proof fn failed_attempts_tell_why(
    message: OutboundMessageView,
    default: Option<RoutingView>,
    reason: Seq<char>,
    parcel: ParcelView,
    channels: Seq<Seq<char>>,
)
    ensures
        first_step(message, Err(reason)) == AttemptStepView::Failed(reason),
        address_of(message.routing, default) is Some && content::outbound_meaning(message.content)
            == Err::<OutboundView, Seq<char>>(reason) ==> (first_step(
            message,
            Ok(default),
        ) matches AttemptStepView::Failed(told) && text::within(told, reason)),
        send_step(parcel, channels) matches AttemptStepView::Failed(told) ==> text::within(
            told,
            text::quoted(parcel.channel_type),
        ),
{
    let malformed = "malformed outbound content: "@ + reason;
    assert(malformed =~= "malformed outbound content: "@ + reason + seq![]);
    text::parts_stand_in_the_whole(malformed, "malformed outbound content: "@, reason, seq![]);
    let name = text::quoted(parcel.channel_type);
    let unknown = "no adapter registered for channel type "@ + name;
    assert(unknown =~= "no adapter registered for channel type "@ + name + seq![]);
    text::parts_stand_in_the_whole(
        unknown,
        "no adapter registered for channel type "@,
        name,
        seq![],
    );
}

/// Failures are counted one by one, and nothing counts down.
pub proof fn failures_are_counted_one_by_one(count: int)
    requires
        0 <= count < u32::MAX,
    ensures
        raised(count) == count + 1,
{
}

} // verus!
