//! Identifiers and times that a conversion makes up.

use crate::model::{
    content_views_are_views, ChoiceView, ContentView, EventView, KindView, LLMContent,
    LLMContentKind, LLMRequest, LLMResponse, LLMStreamEvent, MessageView, RequestView, ResponseView,
};
use crate::seqs::views;
use vstd::prelude::*;

verus! {

/// Whether a text is a random UUID as it is displayed: digits to the base of sixteen, in lower case
/// and in five groups, with the marks of the version and the variant.
pub open spec fn is_uuid(s: Seq<char>) -> bool {
    &&& s.len() == 36
    &&& forall|i: int|
        0 <= i < 36 ==> if i == 8 || i == 13 || i == 18 || i == 23 {
            #[trigger] s[i] == '-'
        } else {
            ('0' <= s[i] && s[i] <= '9') || ('a' <= s[i] && s[i] <= 'f')
        }
    &&& s[14] == '4'
    &&& s[19] == '8' || s[19] == '9' || s[19] == 'a' || s[19] == 'b'
}

/// `uuid::Uuid::new_v4`, displayed: a random UUID.
#[verifier::external_body]
fn new_id() -> (r: String)
    ensures
        is_uuid(r@),
{
    uuid::Uuid::new_v4().to_string()
}

/// `chrono::Utc::now`, as the seconds since the epoch.
#[verifier::external_body]
pub(crate) fn now() -> (r: i64)
{
    chrono::Utc::now().timestamp()
}

/// Identifiers for a part of a message, a message, an event or a whole request, and for what is
/// nested in it, by position.
pub struct FreshIds {
    pub item: String,
    pub call: String,
    pub nested: Vec<FreshIds>,
}

/// What identifiers stand for.
#[verifier::ext_equal]
pub struct IdsView {
    pub item: Seq<char>,
    pub call: Seq<char>,
    pub nested: Seq<IdsView>,
}

/// What identifiers stand for, by recursion over them.
pub open spec fn ids_view(ids: FreshIds) -> IdsView
    decreases ids,
{
    IdsView {
        item: ids.item@,
        call: ids.call@,
        nested: Seq::new(
            ids.nested@.len(),
            |i: int|
                if 0 <= i < ids.nested@.len() {
                    ids_view(ids.nested@[i])
                } else {
                    no_ids()
                },
        ),
    }
}

/// Identifiers without characters.
pub open spec fn no_ids() -> IdsView {
    IdsView { item: Seq::empty(), call: Seq::empty(), nested: Seq::empty() }
}

impl View for FreshIds {
    type V = IdsView;

    open spec fn view(&self) -> IdsView {
        ids_view(*self)
    }
}

/// What optional identifiers stand for.
pub open spec fn opt_ids(ids: Option<&FreshIds>) -> IdsView {
    match ids {
        Some(ids) => ids@,
        None => no_ids(),
    }
}

impl IdsView {
    /// The identifiers for what is nested at position `i`.
    pub open spec fn at(self, i: int) -> IdsView {
        if 0 <= i < self.nested.len() {
            self.nested[i]
        } else {
            no_ids()
        }
    }

    /// Whether the two identifiers are such as are drawn.
    pub open spec fn fresh(self) -> bool {
        is_uuid(self.item) && is_uuid(self.call)
    }
}

/// Whether identifiers have been drawn for a part and for what is nested in it.
pub open spec fn drawn_for_part(c: ContentView, ids: IdsView) -> bool
    decreases c,
{
    &&& ids.fresh()
    &&& match c.kind {
        KindView::ToolResult { content, .. } => drawn_for_parts(content, ids),
        _ => true,
    }
}

/// Whether identifiers have been drawn for each of the parts.
pub open spec fn drawn_for_parts(s: Seq<ContentView>, ids: IdsView) -> bool
    decreases s,
{
    &&& ids.nested.len() == s.len()
    &&& forall|i: int| 0 <= i < s.len() ==> drawn_for_part(s[i], #[trigger] ids.nested[i])
}

/// Whether identifiers have been drawn for a message and its parts.
pub open spec fn drawn_for_message(m: MessageView, ids: IdsView) -> bool {
    ids.fresh() && drawn_for_parts(m.content, ids)
}

/// Whether identifiers have been drawn for a request and its messages.
pub open spec fn drawn_for_request(r: RequestView, ids: IdsView) -> bool {
    &&& ids.fresh()
    &&& ids.nested.len() == r.messages.len()
    &&& forall|i: int|
        0 <= i < r.messages.len() ==> drawn_for_message(r.messages[i], #[trigger] ids.nested[i])
}

/// Whether identifiers have been drawn for a response and its answers.
pub open spec fn drawn_for_response(r: ResponseView, ids: IdsView) -> bool {
    &&& ids.fresh()
    &&& ids.nested.len() == r.choices.len()
    &&& forall|i: int|
        0 <= i < r.choices.len() ==> drawn_for_choice(r.choices[i], #[trigger] ids.nested[i])
}

/// Whether identifiers have been drawn for an answer and its parts.
pub open spec fn drawn_for_choice(c: ChoiceView, ids: IdsView) -> bool {
    ids.fresh() && drawn_for_parts(c.content, ids)
}

/// Whether identifiers have been drawn for an event, and for the part that it starts.
pub open spec fn drawn_for_event(event: EventView, ids: IdsView) -> bool {
    match event {
        EventView::ContentStart { content, .. } => drawn_for_part(content, ids),
        _ => ids.fresh(),
    }
}

/// Whether identifiers have been drawn for each of the events.
pub open spec fn drawn_for_events(s: Seq<EventView>, ids: IdsView) -> bool {
    &&& ids.nested.len() == s.len()
    &&& forall|i: int| 0 <= i < s.len() ==> drawn_for_event(s[i], #[trigger] ids.nested[i])
}

/// The identifiers for what is nested at position `i`.
pub(crate) fn ids_at<'a>(ids: Option<&'a FreshIds>, i: usize) -> (r: Option<&'a FreshIds>)
    ensures
        opt_ids(r) == opt_ids(ids).at(i as int),
{
    match ids {
        Some(ids) => {
            if i < ids.nested.len() {
                Some(&ids.nested[i])
            } else {
                None
            }
        },
        None => None,
    }
}

/// The identifier of an item.
pub(crate) fn item_id<'a>(ids: Option<&'a FreshIds>) -> (r: &'a str)
    ensures
        r@ == opt_ids(ids).item,
{
    match ids {
        Some(ids) => ids.item.as_str(),
        None => {
            proof {
                reveal_strlit("");
                assert(""@ =~= Seq::empty());
            }
            ""
        },
    }
}

/// The identifier of a call.
pub(crate) fn call_id<'a>(ids: Option<&'a FreshIds>) -> (r: &'a str)
    ensures
        r@ == opt_ids(ids).call,
{
    match ids {
        Some(ids) => ids.call.as_str(),
        None => {
            proof {
                reveal_strlit("");
                assert(""@ =~= Seq::empty());
            }
            ""
        },
    }
}

/// Identifiers with those of `nested` nested in them.
fn draw(nested: Vec<FreshIds>) -> (r: FreshIds)
    ensures
        r@.fresh(),
        r@.nested.len() == nested@.len(),
        forall|i: int| 0 <= i < nested@.len() ==> #[trigger] r@.nested[i] == nested@[i]@,
{
    FreshIds { item: new_id(), call: new_id(), nested }
}

fn draw_for_part(content: &LLMContent) -> (r: FreshIds)
    ensures
        drawn_for_part(content@, r@),
    decreases content,
{
    broadcast use content_views_are_views;

    match &content.kind {
        LLMContentKind::ToolResult { content: nested, .. } => {
            proof {
                content_views_are_views(nested@);
            }
            draw_for_parts(nested)
        },
        _ => draw(Vec::new()),
    }
}

fn draw_for_parts(content: &Vec<LLMContent>) -> (r: FreshIds)
    ensures
        r@.fresh(),
        drawn_for_parts(views(content@), r@),
    decreases content,
{
    let ghost all = views(content@);
    let mut nested: Vec<FreshIds> = Vec::new();
    let mut i: usize = 0;
    while i < content.len()
        invariant
            all == views(content@),
            i <= content@.len(),
            nested@.len() == i,
            forall|j: int| 0 <= j < i ==> drawn_for_part(all[j], (#[trigger] nested@[j])@),
        decreases content@.len() - i,
    {
        assert(decreases_to!(content => content@[i as int]));
        nested.push(draw_for_part(&content[i]));
        i = i + 1;
    }
    let r = draw(nested);
    assert forall|j: int| 0 <= j < all.len() implies drawn_for_part(
        all[j],
        #[trigger] r@.nested[j],
    ) by {
        assert(r@.nested[j] == nested@[j]@);
    }
    r
}

/// Draws identifiers for a request.
pub(crate) fn draw_for_request(request: &LLMRequest) -> (r: FreshIds)
    ensures
        drawn_for_request(request@, r@),
{
    let ghost all = views(request.messages@);
    let mut nested: Vec<FreshIds> = Vec::new();
    let mut i: usize = 0;
    while i < request.messages.len()
        invariant
            all == views(request.messages@),
            i <= request.messages@.len(),
            nested@.len() == i,
            forall|j: int| 0 <= j < i ==> drawn_for_message(all[j], (#[trigger] nested@[j])@),
        decreases request.messages@.len() - i,
    {
        nested.push(draw_for_parts(&request.messages[i].content));
        i = i + 1;
    }
    let r = draw(nested);
    assert forall|j: int| 0 <= j < all.len() implies drawn_for_message(
        all[j],
        #[trigger] r@.nested[j],
    ) by {
        assert(r@.nested[j] == nested@[j]@);
    }
    r
}

/// Draws identifiers for a response.
pub(crate) fn draw_for_response(response: &LLMResponse) -> (r: FreshIds)
    ensures
        drawn_for_response(response@, r@),
{
    let ghost all = views(response.choices@);
    let mut nested: Vec<FreshIds> = Vec::new();
    let mut i: usize = 0;
    while i < response.choices.len()
        invariant
            all == views(response.choices@),
            i <= response.choices@.len(),
            nested@.len() == i,
            forall|j: int| 0 <= j < i ==> drawn_for_choice(all[j], (#[trigger] nested@[j])@),
        decreases response.choices@.len() - i,
    {
        nested.push(draw_for_parts(&response.choices[i].content));
        i = i + 1;
    }
    let r = draw(nested);
    assert forall|j: int| 0 <= j < all.len() implies drawn_for_choice(
        all[j],
        #[trigger] r@.nested[j],
    ) by {
        assert(r@.nested[j] == nested@[j]@);
    }
    r
}

fn draw_for_event(event: &LLMStreamEvent) -> (r: FreshIds)
    ensures
        drawn_for_event(event@, r@),
{
    match event {
        LLMStreamEvent::ContentStart { content, .. } => draw_for_part(content),
        _ => draw(Vec::new()),
    }
}

/// Draws identifiers for events.
pub(crate) fn draw_for_events(events: &[LLMStreamEvent]) -> (r: FreshIds)
    ensures
        drawn_for_events(views(events@), r@),
{
    let ghost all = views(events@);
    let mut nested: Vec<FreshIds> = Vec::new();
    let mut i: usize = 0;
    while i < events.len()
        invariant
            all == views(events@),
            i <= events@.len(),
            nested@.len() == i,
            forall|j: int| 0 <= j < i ==> drawn_for_event(all[j], (#[trigger] nested@[j])@),
        decreases events@.len() - i,
    {
        nested.push(draw_for_event(&events[i]));
        i = i + 1;
    }
    let r = draw(nested);
    assert forall|j: int| 0 <= j < all.len() implies drawn_for_event(
        all[j],
        #[trigger] r@.nested[j],
    ) by {
        assert(r@.nested[j] == nested@[j]@);
    }
    r
}

} // verus!
