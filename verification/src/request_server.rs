//! The server of the request/reply channel: it answers the requests of
//! generation-2 plugins from the host's secrets and from a cache of
//! conversation records.

use crate::channel_return::{
    lemma_received_wf, lemma_reply_reaches_its_caller, uses_path, Channel, ChannelState, Poll,
    Received, ReplyPath, Step,
};
use crate::config::{SecretStore, SecretStoreView};
use crate::conversations::{fetched_view, ChannelRecord, ChannelRecordView, Conversations};
use crate::misc::texts;
use crate::plugin_api_v2::{Reply, ReplyView, Request, RequestView};
use vstd::prelude::*;

verus! {

/// What the host does about a request: answer it at once, or first ask the
/// chat service about a conversation.
#[derive(Debug, PartialEq, Eq)]
pub enum Answer {
    Reply(Reply),
    Lookup(String),
}

/// What an [`Answer`] holds, as plain values.
pub enum AnswerView {
    Reply(ReplyView),
    Lookup(Seq<char>),
}

impl View for Answer {
    type V = AnswerView;

    open spec fn view(&self) -> AnswerView {
        match self {
            Answer::Reply(reply) => AnswerView::Reply(reply@),
            Answer::Lookup(id) => AnswerView::Lookup(id@),
        }
    }
}

/// What the host does about `request`, given its secrets and its cache.
///
/// Every request but one is answered from the secrets; a token that was
/// never set is answered with `NotConfigured`. The name of a conversation
/// is answered from the cache where the cache has a record for the
/// identifier, and needs a lookup where it has none.
pub open spec fn answer_of(
    secrets: SecretStoreView,
    cache: Map<Seq<char>, ChannelRecordView>,
    request: RequestView,
) -> AnswerView {
    match request {
        RequestView::ApiToken => AnswerView::Reply(ReplyView::ApiToken(secrets.slack.api_token)),
        RequestView::AdminApiToken => AnswerView::Reply(
            ReplyView::AdminApiToken(secrets.slack.admin_api_token),
        ),
        RequestView::WebHooksIncomingToken => match secrets.slack.incoming_webhooks_token {
            Some(token) => AnswerView::Reply(ReplyView::WebHooksIncomingToken(token)),
            None => AnswerView::Reply(ReplyView::NotConfigured),
        },
        RequestView::WebHooksOutgoingToken => match secrets.slack.outgoing_webhooks_token {
            Some(token) => AnswerView::Reply(ReplyView::WebHooksOutgoingToken(token)),
            None => AnswerView::Reply(ReplyView::NotConfigured),
        },
        RequestView::GetChannelName(id) => if cache.dom().contains(id) {
            AnswerView::Reply(ReplyView::ChannelName(cache[id].display_name()))
        } else {
            AnswerView::Lookup(id)
        },
        RequestView::ConfigPath => AnswerView::Reply(
            ReplyView::ConfigPath(secrets.plugin_config_path),
        ),
    }
}

/// The reply that ends a lookup: the name of the conversation that the
/// chat service returned, or the report that it returned none.
pub open spec fn lookup_reply(fetched: Option<ChannelRecordView>) -> ReplyView {
    match fetched {
        Some(record) => ReplyView::ChannelName(record.display_name()),
        None => ReplyView::LookupFailed,
    }
}

/// The cache after a lookup: a record that was returned is cached under the
/// identifier that was asked for; a failed lookup leaves no trace.
pub open spec fn lookup_cached(
    cache: Map<Seq<char>, ChannelRecordView>,
    id: Seq<char>,
    fetched: Option<ChannelRecordView>,
) -> Map<Seq<char>, ChannelRecordView> {
    match fetched {
        Some(record) => cache.insert(id, record),
        None => cache,
    }
}

/// The identifiers of `records`, in their order.
pub open spec fn ids_of(records: Option<Vec<ChannelRecord>>) -> Seq<Seq<char>> {
    match records {
        Some(records) => Seq::new(records@.len(), |i: int| records@[i]@.id.unwrap()),
        None => Seq::empty(),
    }
}

/// Whether each of `records` has an identifier.
pub open spec fn all_identified(records: Option<Vec<ChannelRecord>>) -> bool {
    match records {
        Some(records) => forall|i: int| 0 <= i < records@.len() ==> (#[trigger] records@[i]).id is Some,
        None => true,
    }
}

/// What one step of request serving did.
#[derive(Debug, PartialEq, Eq)]
pub enum Served {
    /// The oldest request is answered.
    Answered,
    /// The oldest request asks for the name of a conversation that is not
    /// cached. The caller asks the chat service about this identifier and
    /// hands what it learns, with this reply path, to
    /// [`RequestServer::lookup_done`].
    Lookup(ReplyPath, String),
    /// No request waits, and callers still exist.
    Idle,
    /// No request waits and every caller is gone: serving ends.
    Closed,
}

/// The server of the request/reply channel: the secrets it answers from
/// and the cache of conversation records.
pub struct RequestServer {
    secrets: SecretStore,
    conversation: Conversations,
}

impl RequestServer {
    /// The secrets that requests are answered from.
    pub closed spec fn secrets(&self) -> SecretStoreView {
        self.secrets@
    }

    /// The cached conversation records.
    pub closed spec fn conversation(&self) -> Map<Seq<char>, ChannelRecordView> {
        self.conversation@
    }

    /// The cache holds finitely many records.
    pub proof fn lemma_cache_finite(&self)
        ensures
            self.conversation().dom().finite(),
    {
        self.conversation.lemma_finite();
    }

    /// A server with an empty cache that answers from `secrets`.
    pub fn new(secrets: SecretStore) -> (server: Self)
        ensures
            server.secrets() == secrets@,
            server.conversation() == Map::<Seq<char>, ChannelRecordView>::empty(),
            server.conversation().dom().finite(),
    {
        RequestServer { secrets, conversation: Conversations::new() }
    }

    /// What the host does about `request` in its present state.
    pub fn answer(&self, request: &Request) -> (answer: Answer)
        ensures
            answer@ == answer_of(self.secrets(), self.conversation(), request@),
    {
        let slack = self.secrets.slack();
        match request {
            Request::ApiToken => Answer::Reply(Reply::ApiToken(slack.api_token.clone())),
            Request::AdminApiToken => Answer::Reply(
                Reply::AdminApiToken(slack.admin_api_token.clone()),
            ),
            Request::WebHooksIncomingToken => match &slack.incoming_webhooks_token {
                Some(token) => Answer::Reply(Reply::WebHooksIncomingToken(token.clone())),
                None => Answer::Reply(Reply::NotConfigured),
            },
            Request::WebHooksOutgoingToken => match &slack.outgoing_webhooks_token {
                Some(token) => Answer::Reply(Reply::WebHooksOutgoingToken(token.clone())),
                None => Answer::Reply(Reply::NotConfigured),
            },
            Request::GetChannelName(id) => match self.conversation.get(id) {
                Some(record) => Answer::Reply(Reply::ChannelName(record.display_name())),
                None => Answer::Lookup(id.clone()),
            },
            Request::ConfigPath => Answer::Reply(
                Reply::ConfigPath(self.secrets.plugin_config_path().clone()),
            ),
        }
    }

    /// Serves the oldest request that waits in `receiver`, if one waits.
    ///
    /// A request that can be answered from the secrets or the cache gets
    /// its reply written on its own reply path. A request for the name of a
    /// conversation that is not cached is taken out of the queue and handed
    /// back, for the caller to look it up.
    pub fn request_handler(&self, receiver: &mut Channel) -> (served: Served)
        ensures
            old(receiver)@.pending.len() == 0 ==> final(receiver)@ == old(receiver)@ && served == (
            if old(receiver)@.senders_alive {
                Served::Idle
            } else {
                Served::Closed
            }),
            old(receiver)@.pending.len() > 0 ==> match answer_of(
                self.secrets(),
                self.conversation(),
                old(receiver)@.pending[0].1@,
            ) {
                AnswerView::Reply(expected) => served == Served::Answered && exists|reply: Reply|
                    reply@ == expected && final(receiver)@ == #[trigger] old(
                        receiver,
                    )@.received().replied(old(receiver)@.pending[0].0, reply),
                AnswerView::Lookup(expected) => final(receiver)@ == old(receiver)@.received() && (
                served matches Served::Lookup(path, id) && path@ == old(receiver)@.pending[0].0
                    && id@ == expected),
            },
    {
        match receiver.recv() {
            Received::Request(path, request) => {
                match self.answer(&request) {
                    Answer::Reply(reply) => {
                        let ghost number = path@;
                        let ghost written = reply;
                        receiver.reply(path, reply);
                        assert(written@ == answer_of(
                            self.secrets(),
                            self.conversation(),
                            old(receiver)@.pending[0].1@,
                        )->Reply_0);
                        assert(receiver@ == old(receiver)@.received().replied(number, written));
                        Served::Answered
                    },
                    Answer::Lookup(id) => Served::Lookup(path, id),
                }
            },
            Received::Empty => Served::Idle,
            Received::Closed => Served::Closed,
        }
    }

    /// Ends a lookup: writes the reply on `path`, and caches the record
    /// that the chat service returned under the identifier `id` that was
    /// asked for. `fetched` is `None` where the chat service failed or
    /// returned no record. The record is cached even where `path` is not a
    /// path on which a reply can be written.
    pub fn lookup_done(
        &mut self,
        receiver: &mut Channel,
        path: ReplyPath,
        id: String,
        fetched: Option<ChannelRecord>,
    ) -> (written: bool)
        ensures
            written == old(receiver)@.in_service(path@),
            !written ==> final(receiver)@ == old(receiver)@,
            written ==> exists|reply: Reply|
                reply@ == lookup_reply(fetched_view(fetched)) && final(receiver)@
                    == #[trigger] old(receiver)@.replied(path@, reply),
            final(self).conversation() == lookup_cached(
                old(self).conversation(),
                id@,
                fetched_view(fetched),
            ),
            final(self).conversation().dom().finite(),
            final(self).secrets() == old(self).secrets(),
    {
        proof {
            self.conversation.lemma_finite();
        }
        match fetched {
            Some(record) => {
                let reply = Reply::ChannelName(record.display_name());
                let ghost sent = reply;
                self.conversation.insert(id, record);
                let written = receiver.reply(path, reply);
                assert(written ==> receiver@ == old(receiver)@.replied(path@, sent));
                written
            },
            None => {
                let reply = Reply::LookupFailed;
                let written = receiver.reply(path, reply);
                assert(written ==> receiver@ == old(receiver)@.replied(path@, Reply::LookupFailed));
                written
            },
        }
    }

    /// Caches `record` under `id`, in place of any record cached there.
    pub fn conversation_info(&mut self, id: String, record: ChannelRecord)
        ensures
            final(self).conversation() == old(self).conversation().insert(id@, record@),
            final(self).conversation().dom().finite(),
            final(self).secrets() == old(self).secrets(),
    {
        self.conversation.insert(id, record);
    }

    /// The identifiers to look up when the feed connects: those of the
    /// channels, then those of the groups, each list in its own order.
    pub fn on_connect(
        channels: &Option<Vec<ChannelRecord>>,
        groups: &Option<Vec<ChannelRecord>>,
    ) -> (ids: Vec<String>)
        requires
            all_identified(*channels),
            all_identified(*groups),
        ensures
            texts(ids@) == ids_of(*channels) + ids_of(*groups),
    {
        let mut ids: Vec<String> = Vec::new();
        assert(texts(ids@) =~= Seq::<Seq<char>>::empty());
        Self::collect_ids(&mut ids, channels);
        Self::collect_ids(&mut ids, groups);
        ids
    }

    /// Appends the identifiers of `records` to `ids`.
    fn collect_ids(ids: &mut Vec<String>, records: &Option<Vec<ChannelRecord>>)
        requires
            all_identified(*records),
        ensures
            texts(final(ids)@) == texts(old(ids)@) + ids_of(*records),
    {
        match records {
            Some(records) => {
                let mut i: usize = 0;
                while i < records.len()
                    invariant
                        i <= records@.len(),
                        forall|k: int| 0 <= k < records@.len() ==> (#[trigger] records@[k]).id is Some,
                        texts(ids@) == texts(old(ids)@) + ids_of(Some(*records)).take(i as int),
                    decreases records@.len() - i,
                {
                    let ghost before = ids@;
                    match &records[i].id {
                        Some(id) => {
                            ids.push(id.clone());
                        },
                        None => {},
                    }
                    assert(texts(ids@) =~= texts(before).push(records@[i as int]@.id.unwrap()));
                    assert(ids_of(Some(*records)).take(i + 1) =~= ids_of(Some(*records)).take(
                        i as int,
                    ).push(records@[i as int]@.id.unwrap()));
                    i += 1;
                }
                assert(ids_of(Some(*records)).take(i as int) =~= ids_of(Some(*records)));
            },
            None => {
                assert(texts(ids@) =~= texts(old(ids)@) + ids_of(*records));
            },
        }
    }
}

/// The name of a conversation is looked up once: while the cache has no
/// record for `id`, a request for its name needs a lookup; once the lookup
/// has returned `record`, the reply carries that record's name, the record
/// is cached, and every later request for the same name is answered from
/// the cache, with the same name and without a lookup.
pub proof fn lemma_channel_name_cached_after_lookup(
    secrets: SecretStoreView,
    cache: Map<Seq<char>, ChannelRecordView>,
    id: Seq<char>,
    record: ChannelRecordView,
)
    requires
        !cache.dom().contains(id),
    ensures
        answer_of(secrets, cache, RequestView::GetChannelName(id)) == AnswerView::Lookup(id),
        answer_of(
            secrets,
            lookup_cached(cache, id, Some(record)),
            RequestView::GetChannelName(id),
        ) == AnswerView::Reply(lookup_reply(Some(record))),
{
}

/// What is cached stays cached: a lookup for one identifier, whatever it
/// returns, leaves the records of every other identifier as they were, and
/// removes none.
pub proof fn lemma_cache_entries_stay(
    cache: Map<Seq<char>, ChannelRecordView>,
    id: Seq<char>,
    fetched: Option<ChannelRecordView>,
    other: Seq<char>,
)
    requires
        cache.dom().contains(other),
    ensures
        lookup_cached(cache, id, fetched).dom().contains(other),
        other != id ==> lookup_cached(cache, id, fetched)[other] == cache[other],
{
}

/// The answer to a request reaches the plugin that asked: once the server
/// has taken the oldest request and written the reply to it on the reply
/// path that came with it, the holder of that path's ticket finds this
/// reply, whatever happens on other reply paths in between.
pub proof fn lemma_answer_reaches_the_asker(
    state: ChannelState,
    secrets: SecretStoreView,
    cache: Map<Seq<char>, ChannelRecordView>,
    reply: Reply,
    others: Seq<Step>,
)
    requires
        state.wf(),
        state.pending.len() > 0,
        answer_of(secrets, cache, state.pending[0].1@) == AnswerView::Reply(reply@),
        forall|i: int| 0 <= i < others.len() ==> !uses_path(#[trigger] others[i], state.pending[0].0),
    ensures
        state.received().replied(state.pending[0].0, reply).run(others).poll(state.pending[0].0)
            == Poll::Ready(reply),
{
    lemma_received_wf(state);
    lemma_reply_reaches_its_caller(state.received(), state.pending[0].0, reply, others);
}

} // verus!
