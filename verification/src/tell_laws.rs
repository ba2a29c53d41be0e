//! What people are told where something is refused.
use crate::http::{complaint, first_line, oversize};
use crate::hub::HubView;
use crate::hub_laws::sound;
use crate::protocol::UserInfoView;
use crate::store::MediaError;
use crate::text::{decimal, occurs, trimmed};
use crate::validate::{cleaned_nickname, cleaned_room, cleaned_text, Problem};
use vstd::prelude::*;
use vstd::utf8::encode_utf8;

verus! {

/// What a complaint is about.
pub open spec fn about(problem: Problem) -> Seq<char> {
    match problem {
        Problem::Empty { field } => field,
        Problem::TooLong { field, .. } => field,
        Problem::IllegalChar { field, .. } => field,
    }
}

/// Whoever is refused for a name, a room or a message is told which of them it was.
pub proof fn law_complaints_name_the_field(raw: Seq<char>)
    ensures
        cleaned_nickname(raw) matches Err(problem) ==> about(problem) == "ник"@,
        cleaned_room(raw) matches Err(problem) ==> about(problem) == "комната"@,
        cleaned_text(raw) matches Err(problem) ==> about(problem) == "сообщение"@,
{
}

/// The sentence of a complaint begins with what it is about. Where something is too long it
/// tells first how long it is and then how long it may be.
pub proof fn law_sentences_tell_the_numbers(field: Seq<char>, max: int, actual: int, ch: char)
    requires
        0 <= max,
        0 <= actual,
    ensures
        (Problem::Empty { field }).sentence() == field + ": пустое значение"@,
        (Problem::TooLong { field, max, actual }).sentence() == field + ": слишком длинное ("@
            + decimal(actual as nat) + " симв., максимум "@ + decimal(max as nat) + ")"@,
        (Problem::IllegalChar { field, ch }).sentence().take(field.len() as int) == field,
{
    let told = (Problem::IllegalChar { field, ch }).sentence();
    assert(told.take(field.len() as int) =~= field);
}

/// A file that is too large is complained of in kilobytes, first its own and then those that
/// are taken.
pub proof fn law_large_file_is_measured(size: usize, limit: usize)
    ensures
        (MediaError::TooLarge { size, limit }).told() == "файл слишком большой: "@ + decimal(
            (size / 1024) as nat,
        ) + " КБ при потолке "@ + decimal((limit / 1024) as nat) + " КБ"@,
        size > limit ==> oversize(size as int, limit as int) is Some,
        size <= limit ==> oversize(size as int, limit as int) is None,
        size > limit ==> exists|m: nat|
            (m - 1) * 1048576 < size <= m * 1048576 && oversize(size as int, limit as int) == Some(
                "файл слишком большой: "@ + #[trigger] decimal(m) + " МБ при потолке "@ + decimal(
                    (limit / 1048576) as nat,
                ) + " МБ у этого сервера"@,
            ),
{
    if size > limit {
        let m = crate::http::parts(size as int, 1048576) as nat;
        assert(oversize(size as int, limit as int) == Some(
            "файл слишком большой: "@ + decimal(m) + " МБ при потолке "@ + decimal(
                (limit / 1048576) as nat,
            ) + " МБ у этого сервера"@,
        ));
    }
}

/// A full room tells how many people are in it, and a name that is taken is named.
pub proof fn law_refusals_tell_why(hub: HubView, k: int, user: UserInfoView)
    requires
        sound(hub),
        0 <= k < hub.rooms.len(),
    ensures
        ({
            let room = hub.rooms[k];
            let full = room.peers.len() >= hub.config.max_room_users;
            hub.refusal(room.name, user) matches Some(refusal) ==> refusal.message == if full {
                "в комнате уже "@ + decimal(room.peers.len()) + " человек"@
            } else {
                "ник "@ + user.nickname + " в этой комнате уже занят"@
            }
        }),
{
    crate::server_laws::lemma_room_is(hub, k);
}

/// A server that refuses in a few words is quoted; one that says nothing, or too much, is
/// told by the first line of its answer. Where all is well nothing is told.
pub proof fn law_server_is_quoted(head: Seq<char>, body: Seq<char>)
    ensures
        occurs(first_line(head), " 200"@) ==> complaint(head, body) is None,
        !occurs(first_line(head), " 200"@) && trimmed(body).len() > 0 && encode_utf8(
            trimmed(body),
        ).len() < 200 ==> complaint(head, body) == Some(trimmed(body)),
        !occurs(first_line(head), " 200"@) && (trimmed(body).len() == 0 || encode_utf8(
            trimmed(body),
        ).len() >= 200) ==> complaint(head, body) == Some(
            "сервер ответил: "@ + trimmed(first_line(head)),
        ),
{
}

} // verus!
