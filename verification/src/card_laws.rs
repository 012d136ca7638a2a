//! What holds of the links to cards.
use vstd::prelude::*;

use crate::card_url::{card_link, fresh, signature, signed_message};
use crate::config::Settings;
use crate::error::Failure;
use crate::http::{deserved, user_named, without_suffix, CardAnswer, INVALID_USER};
use crate::text::{
    decimal, decimal_digits, decimal_int, decimal_reads_back, digits_value, ends_with,
};

verus! {

/// The last part of the link to a user's card.
pub open spec fn segment(user: u64) -> Seq<char> {
    decimal(user as nat) + ".jpg"@
}

/// A link to a card holds the parts that a request for it is made of.
pub proof fn link_holds_its_parts(base: Seq<char>, user: u64, issued_at: i64, secret: Seq<char>)
    ensures
        card_link(base, user, issued_at, secret) == base + "/card/"@ + segment(user) + "?t="@
            + decimal_int(issued_at as int) + "&sig="@ + signature(user, issued_at, secret),
{
    reveal_strlit(".jpg?t=");
    reveal_strlit(".jpg");
    reveal_strlit("?t=");
    assert(".jpg?t="@ =~= ".jpg"@ + "?t="@);
    let left = base + "/card/"@;
    assert(left + decimal(user as nat) + ".jpg?t="@ =~= left + segment(user) + "?t="@);
}

/// The last part of the link to a user's card names that user.
pub proof fn segment_names_user(user: u64)
    ensures
        user_named(segment(user)) == Some(user),
{
    reveal_strlit(".jpg");
    let digits = decimal(user as nat);
    decimal_digits(user as nat);
    decimal_reads_back(user);
    let jpg = seq!['.', 'j', 'p', 'g'];
    let whole = segment(user);
    assert(whole.subrange(whole.len() - 4, whole.len() as int) =~= jpg);
    assert(whole.take(whole.len() - 4) =~= digits);
    if ends_with(digits, jpg) {
        let tail = digits.subrange(digits.len() - 4, digits.len() as int);
        assert(tail[3] == 'g' && tail[3] == digits[digits.len() - 1]);
    }
    assert(without_suffix(digits) == digits);
}

/// A link that the bot gave out is answered with the user's card as long as it is fresh.
pub proof fn fresh_link_is_answered(
    res: CardAnswer,
    now: i64,
    user: u64,
    issued_at: i64,
    settings: Settings,
)
    requires
        fresh(now, issued_at, settings.http.card_url_ttl_secs),
        deserved(
            res,
            now,
            segment(user),
            issued_at,
            signature(user, issued_at, settings.card_signing_secret),
            settings,
        ),
    ensures
        res == CardAnswer::Draw(user),
{
    segment_names_user(user);
}

/// A link is fresh for as long as was said, to the second, and never again after that. One that says
/// that it was issued at the start of 1970 or before never is.
pub proof fn links_wear_out(now: i64, later: i64, issued_at: i64, ttl_secs: i64)
    requires
        now <= later,
    ensures
        issued_at > 0 ==> (fresh(now, issued_at, ttl_secs) <==> now <= issued_at + ttl_secs),
        issued_at <= 0 ==> !fresh(now, issued_at, ttl_secs),
        !fresh(now, issued_at, ttl_secs) ==> !fresh(later, issued_at, ttl_secs),
{
}

/// The ending of the name of a picture is dropped, as often as it stands there, and nothing else.
pub proof fn endings_are_dropped(text: Seq<char>)
    ensures
        without_suffix(text + seq!['.', 'j', 'p', 'g']) == without_suffix(text),
        !ends_with(text, seq!['.', 'j', 'p', 'g']) ==> without_suffix(text) == text,
        !ends_with(without_suffix(text), seq!['.', 'j', 'p', 'g']),
    decreases text.len(),
{
    let jpg = seq!['.', 'j', 'p', 'g'];
    let long = text + jpg;
    assert(long.subrange(long.len() - 4, long.len() as int) =~= jpg);
    assert(long.take(long.len() - 4) =~= text);
    if ends_with(text, jpg) {
        endings_are_dropped(text.take(text.len() - 4));
    }
}

/// A request whose link names no user is told so, whatever its signature and its time.
pub proof fn nameless_requests_are_refused(
    res: CardAnswer,
    now: i64,
    last: Seq<char>,
    issued_at: i64,
    sig: Seq<char>,
    settings: Settings,
)
    requires
        user_named(last) is None,
        deserved(res, now, last, issued_at, sig, settings),
    ensures
        res matches CardAnswer::Refuse(status, said) && status == 400 && said@ == INVALID_USER@,
{
}

/// A link that is too old is refused, whatever its signature.
pub proof fn old_link_is_refused(
    res: CardAnswer,
    now: i64,
    user: u64,
    issued_at: i64,
    sig: Seq<char>,
    settings: Settings,
)
    requires
        !fresh(now, issued_at, settings.http.card_url_ttl_secs),
        deserved(res, now, segment(user), issued_at, sig, settings),
    ensures
        res matches CardAnswer::Refuse(status, said) && status == 403 && said@
            == Failure::InvalidCardUrl.told(),
{
    segment_names_user(user);
}

/// Nothing is drawn without the signature for that user, that time and the bot's secret.
pub proof fn card_needs_signature(
    res: CardAnswer,
    now: i64,
    last: Seq<char>,
    issued_at: i64,
    sig: Seq<char>,
    settings: Settings,
)
    requires
        deserved(res, now, last, issued_at, sig, settings),
    ensures
        res matches CardAnswer::Draw(user) ==> sig == signature(
            user,
            issued_at,
            settings.card_signing_secret,
        ) && fresh(now, issued_at, settings.http.card_url_ttl_secs) && user_named(last) == Some(
            user,
        ),
{
}

proof fn lemma_decimal_int(a: int, b: int)
    requires
        decimal_int(a) == decimal_int(b),
    ensures
        a == b,
{
    decimal_digits((if a < 0 {
        -a
    } else {
        a
    }) as nat);
    decimal_digits((if b < 0 {
        -b
    } else {
        b
    }) as nat);
    if a >= 0 {
        assert('0' <= decimal_int(a)[0]);
    } else {
        assert(decimal_int(a)[0] == '-');
        assert(decimal_int(a).drop_first() =~= decimal((-a) as nat));
    }
    if b >= 0 {
        assert('0' <= decimal_int(b)[0]);
    } else {
        assert(decimal_int(b)[0] == '-');
        assert(decimal_int(b).drop_first() =~= decimal((-b) as nat));
    }
}

/// What is signed differs from user to user and from time to time.
pub proof fn signed_messages_differ(
    user: u64,
    issued_at: i64,
    other_user: u64,
    other_issued_at: i64,
)
    requires
        user != other_user || issued_at != other_issued_at,
    ensures
        signed_message(user, issued_at) != signed_message(other_user, other_issued_at),
{
    if signed_message(user, issued_at) == signed_message(other_user, other_issued_at) {
        let message = signed_message(user, issued_at);
        let left = decimal(user as nat);
        let right = decimal(other_user as nat);
        decimal_digits(user as nat);
        decimal_digits(other_user as nat);
        let n = left.len() as int;
        let m = right.len() as int;
        assert(message[n] == ':');
        assert(signed_message(other_user, other_issued_at)[m] == ':');
        if n < m {
            assert(message[n] == right[n]);
        } else if m < n {
            assert(message[m] == left[m]);
        }
        assert(n == m);
        assert(left =~= message.take(n));
        assert(right =~= signed_message(other_user, other_issued_at).take(n));
        assert(digits_value(left) == digits_value(right));
        assert(decimal_int(issued_at as int) =~= message.skip(n + 1));
        assert(decimal_int(other_issued_at as int) =~= signed_message(
            other_user,
            other_issued_at,
        ).skip(n + 1));
        lemma_decimal_int(issued_at as int, other_issued_at as int);
    }
}

} // verus!
