//! What a connection can rely on, and what becomes of the files that are uploaded.
use crate::hub::HubView;
use crate::hub_laws::sound;
use crate::protocol::{
    AttachmentKind, ClientMessageView, ErrorCode, ServerMessageView, UserInfoView,
};
use crate::seqs::{lemma_last_where, last_where};
use crate::server_laws::{
    all_hear, all_told, law_newcomer_is_announced, law_post_reaches_everybody, law_typist_is_shown,
    quotes,
};
use crate::session::{
    join_plan, talk_plan, talked, welcome, ArrivalView, FrameView, JoinPlan, Moment, SessionView,
    TalkPlan, TalkStepView,
};
use crate::store::{is_file, marked, sniffed, MediaError, StoreView};
use crate::validate::{cleaned_nickname, cleaned_room, cleaned_text};
use vstd::prelude::*;

verus! {

/// Whether an answer is an error with the given code.
pub open spec fn fails_with(answer: ServerMessageView, code: ErrorCode) -> bool {
    answer matches ServerMessageView::Error { code: told, .. } && told == code
}

/// Whether a plan is to answer with an error and to wait for the next frame.
pub open spec fn answers_with(plan: JoinPlan, code: ErrorCode) -> bool {
    plan matches JoinPlan::Answer(answer) && fails_with(answer, code)
}

/// Somebody who has not named themselves is let in by a join with a good name and a good
/// room that nobody refuses, under the names as they were cleaned, and by nothing else.
pub proof fn law_only_a_good_join_enters(hub: HubView, id: u128, arrival: ArrivalView)
    ensures
        join_plan(hub, id, arrival) matches JoinPlan::Enter { nickname, room } ==> {
            &&& arrival matches ArrivalView::Frame(
                FrameView::Message(ClientMessageView::Join { nickname: typed, room: where_to }),
            )
            &&& cleaned_nickname(typed) matches Ok(clean) && clean == nickname
            &&& cleaned_room(where_to) matches Ok(clean) && clean == room
            &&& hub.refusal(room, UserInfoView { id, nickname }) is None
        },
{
}

/// A join is let in, or the answer says what is wrong: the name, the room, or what stands
/// against it in the room. The connection stays open either way.
pub proof fn law_join_is_answered(
    hub: HubView,
    id: u128,
    nickname: Seq<char>,
    room: Seq<char>,
)
    ensures
        ({
            let plan = join_plan(
                hub,
                id,
                ArrivalView::Frame(FrameView::Message(ClientMessageView::Join { nickname, room })),
            );
            &&& cleaned_nickname(nickname) is Err ==> answers_with(plan, ErrorCode::InvalidNickname)
            &&& cleaned_nickname(nickname) is Ok && cleaned_room(room) is Err ==> answers_with(
                plan,
                ErrorCode::InvalidRoom,
            )
            &&& cleaned_nickname(nickname) is Ok && cleaned_room(room) is Ok ==> {
                let user = UserInfoView { id, nickname: cleaned_nickname(nickname)->Ok_0 };
                let name = cleaned_room(room)->Ok_0;
                match hub.refusal(name, user) {
                    Some(refusal) => answers_with(plan, refusal.code),
                    None => plan == (JoinPlan::Enter { nickname: user.nickname, room: name }),
                }
            }
        }),
{
}

/// Before it has joined, a connection that is late is refused, one that goes is let go,
/// and a question gets its answer.
pub proof fn law_before_joining(hub: HubView, id: u128, message: ClientMessageView)
    ensures
        join_plan(hub, id, ArrivalView::Late) matches JoinPlan::Refuse(answer) && fails_with(
            answer,
            ErrorCode::NotJoined,
        ),
        join_plan(hub, id, ArrivalView::Lost) is End,
        join_plan(hub, id, ArrivalView::Frame(FrameView::Close)) is End,
        join_plan(hub, id, ArrivalView::Frame(FrameView::Other)) is Wait,
        answers_with(
            join_plan(hub, id, ArrivalView::Frame(FrameView::Binary)),
            ErrorCode::InvalidMessage,
        ),
        answers_with(
            join_plan(hub, id, ArrivalView::Frame(FrameView::Unreadable)),
            ErrorCode::InvalidMessage,
        ),
        ({
            let plan = join_plan(hub, id, ArrivalView::Frame(FrameView::Message(message)));
            match message {
                ClientMessageView::Leave => plan is End,
                ClientMessageView::Typing => plan is Wait,
                ClientMessageView::Ping => plan == JoinPlan::Answer(ServerMessageView::Pong),
                ClientMessageView::Chat { .. } => answers_with(plan, ErrorCode::NotJoined),
                ClientMessageView::Join { .. } => plan is Answer || plan is Enter,
            }
        }),
{
}

/// The first word to a newcomer names them and the room, gives the people there whose
/// connection is open, all that the room remembers, and the largest file it takes.
pub proof fn law_welcome_tells_all(
    hub: HubView,
    k: int,
    id: u128,
    nickname: Seq<char>,
    closed: Seq<u128>,
    upload_limit: u64,
)
    requires
        sound(hub),
        0 <= k < hub.rooms.len(),
    ensures
        welcome(hub, id, nickname, hub.rooms[k].name, closed, upload_limit)
            matches ServerMessageView::Welcome {
            your_id,
            room,
            nickname: shown,
            users,
            history,
            upload_limit: limit,
        } && {
            let out = hub.join_notices(room, UserInfoView { id, nickname }, closed);
            &&& your_id == id
            &&& room == hub.rooms[k].name
            &&& shown == nickname
            &&& history == hub.rooms[k].history
            &&& limit == upload_limit
            &&& all_told(out, hub.rooms[k].peers, closed, None)
            &&& users.len() == out.len()
            &&& forall|i: int| 0 <= i < users.len() ==> (#[trigger] users[i]).id == out[i].to
        },
{
    law_newcomer_is_announced(hub, k, UserInfoView { id, nickname }, closed);
}

/// Whether somebody with an open session stands in a room at a place.
pub open spec fn sits(hub: HubView, session: SessionView, k: int, at: int) -> bool {
    &&& sound(hub)
    &&& 0 <= k < hub.rooms.len()
    &&& hub.rooms[k].name == session.room
    &&& 0 <= at < hub.rooms[k].peers.len()
    &&& hub.rooms[k].peers[at].user == session.user
}

/// What a member says goes to everybody in the room as it was cleaned, under the member's
/// name, with the identifier and the time of the server, and with the attachment as the
/// store knows it. The member gets no answer of their own.
pub proof fn law_words_reach_the_room(
    before: HubView,
    after: HubView,
    store: StoreView,
    session: SessionView,
    k: int,
    at: int,
    text: Seq<char>,
    attachment: Option<u128>,
    reply_to: Option<u128>,
    moment: Moment,
    closed: Seq<u128>,
    step: TalkStepView,
)
    requires
        sits(before, session, k, at),
        talked(
            before,
            after,
            store,
            session,
            FrameView::Message(ClientMessageView::Chat { text, attachment, reply_to }),
            moment,
            closed,
            step,
        ),
        attachment is Some ==> store.found(attachment->0) is Some,
        cleaned_text(text) is Ok || (cleaned_text(text)->Err_0 is Empty && attachment is Some),
    ensures
        step.open,
        step.reply is None,
        all_told(step.deliveries, before.rooms[k].peers, closed, None),
        forall|i: int|
            0 <= i < step.deliveries.len() ==> {
                &&& (#[trigger] step.deliveries[i]).message matches ServerMessageView::Chat(said)
                &&& said.id == moment.id
                &&& said.ts == moment.ts
                &&& said.from == session.user
                &&& cleaned_text(text) matches Ok(clean) ==> said.text == clean
                &&& cleaned_text(text) is Err ==> said.text.len() == 0
                &&& attachment is None ==> said.attachment is None
                &&& attachment is Some ==> said.attachment == Some(
                    store.found(attachment->0)->0.attachment,
                )
                &&& reply_to is None ==> said.reply is None
                &&& reply_to is Some ==> quotes(
                    said.reply,
                    before.rooms[k].history,
                    reply_to->0,
                )
            },
{
    let plan = talk_plan(
        store,
        FrameView::Message(ClientMessageView::Chat { text, attachment, reply_to }),
    );
    if let TalkPlan::Post { text, attachment, reply_to } = plan {
        let message = crate::protocol::ChatMessageView {
            id: moment.id,
            from: session.user,
            text,
            ts: moment.ts,
            attachment,
            reply: None,
        };
        law_post_reaches_everybody(before, k, message, reply_to, closed);
    }
}

/// What cannot be said is answered with an error to the member alone; the rooms stay as
/// they are.
pub proof fn law_bad_words_are_refused(
    before: HubView,
    after: HubView,
    store: StoreView,
    session: SessionView,
    text: Seq<char>,
    attachment: Option<u128>,
    reply_to: Option<u128>,
    moment: Moment,
    closed: Seq<u128>,
    step: TalkStepView,
)
    requires
        talked(
            before,
            after,
            store,
            session,
            FrameView::Message(ClientMessageView::Chat { text, attachment, reply_to }),
            moment,
            closed,
            step,
        ),
        (attachment is Some && store.found(attachment->0) is None) || (cleaned_text(text) is Err
            && (attachment is None || !(cleaned_text(text)->Err_0 is Empty))),
    ensures
        step.open,
        step.deliveries.len() == 0,
        step.reply is Some && fails_with(step.reply->0, ErrorCode::InvalidMessage),
        after == before,
{
}

/// A member who types is shown to the others and to nobody else, and gets no answer.
pub proof fn law_typing_reaches_the_others(
    before: HubView,
    after: HubView,
    store: StoreView,
    session: SessionView,
    k: int,
    at: int,
    moment: Moment,
    closed: Seq<u128>,
    step: TalkStepView,
)
    requires
        sits(before, session, k, at),
        before.rooms[k].peers[at].last_typing is None,
        talked(
            before,
            after,
            store,
            session,
            FrameView::Message(ClientMessageView::Typing),
            moment,
            closed,
            step,
        ),
    ensures
        step.open,
        step.reply is None,
        all_told(step.deliveries, before.rooms[k].peers, closed, Some(session.user.id)),
        all_hear(step.deliveries, ServerMessageView::Typing { user: session.user }),
{
    law_typist_is_shown(before, k, at, session.user, moment.now, closed);
}

/// Whatever else a member sends touches no room: a ping is answered, a second join and what
/// cannot be read are refused, and only leaving ends the connection.
pub proof fn law_rest_of_the_talk(
    before: HubView,
    after: HubView,
    store: StoreView,
    session: SessionView,
    frame: FrameView,
    moment: Moment,
    closed: Seq<u128>,
    step: TalkStepView,
)
    requires
        talked(before, after, store, session, frame, moment, closed, step),
    ensures
        step.open <==> !(frame matches FrameView::Message(ClientMessageView::Leave)),
        match frame {
            FrameView::Message(ClientMessageView::Chat { .. }) => true,
            FrameView::Message(ClientMessageView::Typing) => step.reply is None,
            _ => after == before && step.deliveries.len() == 0,
        },
        match frame {
            FrameView::Message(ClientMessageView::Ping) => step.reply == Some(
                ServerMessageView::Pong,
            ),
            FrameView::Message(ClientMessageView::Join { .. }) => step.reply is Some
                && fails_with(step.reply->0, ErrorCode::AlreadyJoined),
            FrameView::Message(ClientMessageView::Leave) => step.reply is None,
            FrameView::Binary => step.reply is Some && fails_with(
                step.reply->0,
                ErrorCode::InvalidMessage,
            ),
            FrameView::Unreadable => step.reply is Some && fails_with(
                step.reply->0,
                ErrorCode::InvalidMessage,
            ),
            FrameView::Close | FrameView::Other => step.reply is None,
            _ => true,
        },
{
}

/// Whether a file begins with the given bytes.
pub open spec fn starts_with(bytes: Seq<u8>, mark: Seq<u8>) -> bool {
    bytes.len() >= mark.len() && forall|i: int|
        0 <= i < mark.len() ==> #[trigger] bytes[i] == mark[i]
}

proof fn lemma_starts_with(bytes: Seq<u8>, mark: Seq<u8>)
    ensures
        starts_with(bytes, mark) <==> marked(bytes, 0, mark),
{
    if starts_with(bytes, mark) {
        assert(bytes.subrange(0, mark.len() as int) =~= mark);
    }
    if marked(bytes, 0, mark) {
        assert forall|i: int| 0 <= i < mark.len() implies #[trigger] bytes[i] == mark[i] by {
            assert(bytes.subrange(0, mark.len() as int)[i] == bytes[i]);
        }
    }
}

/// Whether the name of a type begins like this.
pub open spec fn is_type_of(mime: Seq<char>, family: Seq<char>) -> bool {
    mime.len() > family.len() && mime.take(family.len() as int) == family
}

/// Whatever is recognised is a picture or a sound, as the name of its type says; no file is
/// both, and nothing else is recognised.
pub proof fn law_kind_agrees_with_type(bytes: Seq<u8>)
    ensures
        sniffed(bytes) matches Some((mime, kind)) ==> {
            &&& kind == AttachmentKind::Image <==> is_type_of(mime, "image/"@)
            &&& kind == AttachmentKind::Audio <==> is_type_of(mime, "audio/"@)
            &&& kind == AttachmentKind::Image || kind == AttachmentKind::Audio
        },
{
    reveal_strlit("image/");
    reveal_strlit("audio/");
    reveal_strlit("image/jpeg");
    reveal_strlit("image/png");
    reveal_strlit("image/gif");
    reveal_strlit("image/webp");
    reveal_strlit("audio/wav");
    reveal_strlit("audio/webm");
    reveal_strlit("audio/ogg");
    reveal_strlit("audio/mp4");
    if let Some((mime, kind)) = sniffed(bytes) {
        assert(mime.len() >= 9);
        if mime[0] == 'i' {
            assert(mime.take(6) =~= "image/"@);
            assert(mime.take(6)[0] != "audio/"@[0]);
        } else {
            assert(mime.take(6) =~= "audio/"@);
            assert(mime.take(6)[0] != "image/"@[0]);
        }
    }
}

/// Files are known by their first bytes: JPEG, PNG, GIF and WebP are pictures.
pub proof fn law_pictures_are_recognised(bytes: Seq<u8>)
    ensures
        starts_with(bytes, seq![0xffu8, 0xd8u8, 0xffu8]) ==> sniffed(bytes) == Some(
            ("image/jpeg"@, AttachmentKind::Image),
        ),
        starts_with(
            bytes,
            seq![137u8, 80u8, 78u8, 71u8, 13u8, 10u8, 26u8, 10u8],
        ) ==> sniffed(bytes) == Some(("image/png"@, AttachmentKind::Image)),
        starts_with(bytes, seq![71u8, 73u8, 70u8, 56u8, 55u8, 97u8]) || starts_with(
            bytes,
            seq![71u8, 73u8, 70u8, 56u8, 57u8, 97u8],
        ) ==> sniffed(bytes) == Some(("image/gif"@, AttachmentKind::Image)),
        bytes.len() > 12 && starts_with(bytes, seq![82u8, 73u8, 70u8, 70u8])
            && bytes.subrange(8, 12) == seq![87u8, 69u8, 66u8, 80u8] ==> sniffed(bytes) == Some(
            ("image/webp"@, AttachmentKind::Image),
        ),
{
    lemma_first_byte(bytes);
    lemma_starts_with(bytes, crate::store::jpeg_mark());
    lemma_starts_with(bytes, crate::store::png_mark());
    lemma_starts_with(bytes, crate::store::gif87_mark());
    lemma_starts_with(bytes, crate::store::gif89_mark());
    lemma_starts_with(bytes, crate::store::riff_mark());
}

/// The marks of the formats begin with different bytes.
proof fn lemma_first_byte(bytes: Seq<u8>)
    ensures
        marked(bytes, 0, crate::store::jpeg_mark()) ==> bytes[0] == 0xff,
        marked(bytes, 0, crate::store::png_mark()) ==> bytes[0] == 137,
        marked(bytes, 0, crate::store::gif87_mark()) ==> bytes[0] == 71,
        marked(bytes, 0, crate::store::gif89_mark()) ==> bytes[0] == 71,
        marked(bytes, 0, crate::store::riff_mark()) ==> bytes[0] == 82,
        marked(bytes, 0, crate::store::webm_mark()) ==> bytes[0] == 26,
        marked(bytes, 0, crate::store::ogg_mark()) ==> bytes[0] == 79,
        marked(bytes, 8, crate::store::webp_mark()) ==> bytes[9] == 69,
        marked(bytes, 8, crate::store::wave_mark()) ==> bytes[9] == 65,
{
    lemma_starts_with(bytes, crate::store::jpeg_mark());
    lemma_starts_with(bytes, crate::store::png_mark());
    lemma_starts_with(bytes, crate::store::gif87_mark());
    lemma_starts_with(bytes, crate::store::gif89_mark());
    lemma_starts_with(bytes, crate::store::riff_mark());
    lemma_starts_with(bytes, crate::store::webm_mark());
    lemma_starts_with(bytes, crate::store::ogg_mark());
    if marked(bytes, 8, crate::store::webp_mark()) {
        assert(bytes.subrange(8, 12)[1] == bytes[9]);
    }
    if marked(bytes, 8, crate::store::wave_mark()) {
        assert(bytes.subrange(8, 12)[1] == bytes[9]);
    }
}

/// WAV, WebM, Ogg and MP4 are sounds.
pub proof fn law_sounds_are_recognised(bytes: Seq<u8>)
    ensures
        bytes.len() > 12 && starts_with(bytes, seq![82u8, 73u8, 70u8, 70u8])
            && bytes.subrange(8, 12) == seq![87u8, 65u8, 86u8, 69u8] ==> sniffed(bytes) == Some(
            ("audio/wav"@, AttachmentKind::Audio),
        ),
        starts_with(bytes, seq![26u8, 69u8, 223u8, 163u8]) ==> sniffed(bytes) == Some(
            ("audio/webm"@, AttachmentKind::Audio),
        ),
        starts_with(bytes, seq![79u8, 103u8, 103u8, 83u8]) ==> sniffed(bytes) == Some(
            ("audio/ogg"@, AttachmentKind::Audio),
        ),
        bytes.len() > 12 && bytes.subrange(4, 8) == seq![102u8, 116u8, 121u8, 112u8] && (bytes[0]
            == 0) ==> sniffed(bytes) == Some(("audio/mp4"@, AttachmentKind::Audio)),
{
    lemma_first_byte(bytes);
    lemma_starts_with(bytes, crate::store::riff_mark());
    lemma_starts_with(bytes, crate::store::webm_mark());
    lemma_starts_with(bytes, crate::store::ogg_mark());
}

/// A file is refused where it is larger than the limit, with both sizes named, or where its
/// type is not recognised, and only then.
pub proof fn law_what_is_not_taken(store: StoreView, bytes: Seq<u8>)
    requires
        bytes.len() <= usize::MAX,
    ensures
        match store.problem(bytes) {
            Some(MediaError::TooLarge { size, limit }) => {
                &&& bytes.len() > store.limit
                &&& size == bytes.len()
                &&& limit == store.limit
            },
            Some(MediaError::UnsupportedType) => {
                &&& bytes.len() <= store.limit
                &&& sniffed(bytes) is None
            },
            None => bytes.len() <= store.limit && sniffed(bytes) is Some,
        },
{
}

/// A file is described by what it holds: its size and the type of its contents, whatever it
/// was called. It is served under that type.
pub proof fn law_description_is_true(store: StoreView, id: u128, name: Seq<char>, bytes: Seq<u8>)
    requires
        sniffed(bytes) is Some,
        bytes.len() <= store.capacity,
        bytes.len() <= u64::MAX,
        store.problem(bytes) is None,
    ensures
        ({
            let d = store.described(id, name, bytes);
            let after = store.holding(id, name, bytes);
            &&& d.id == id
            &&& d.size == bytes.len()
            &&& d.mime == (sniffed(bytes)->0).0
            &&& d.kind == (sniffed(bytes)->0).1
            &&& after.capacity == store.capacity && after.limit == store.limit
            &&& after.files.len() > 0
            &&& after.files.last().attachment == d
            &&& after.files.last().file.mime == d.mime
            &&& after.files.last().file.bytes == bytes
        }),
{
    crate::store::law_upload_is_found(store, id, name, bytes);
    crate::store::law_oldest_give_way(store, id, name, bytes);
    lemma_last_where(store.holding(id, name, bytes).files, is_file(id));
}

/// A file is found by its identifier where there is one with it, and it is one with it.
pub proof fn law_files_are_found_by_number(store: StoreView, id: u128)
    ensures
        match store.found(id) {
            Some(entry) => entry.attachment.id == id && store.files.contains(entry),
            None => forall|i: int|
                0 <= i < store.files.len() ==> (#[trigger] store.files[i]).attachment.id != id,
        },
{
    lemma_last_where(store.files, is_file(id));
    let at = last_where(store.files, is_file(id));
    if at >= 0 {
        assert(is_file(id)(store.files[at]));
    } else {
        assert forall|i: int| 0 <= i < store.files.len() implies (
        #[trigger] store.files[i]).attachment.id != id by {
            assert(!is_file(id)(store.files[i]));
        }
    }
}

} // verus!
