//! Signed links to status cards.
use vstd::prelude::*;

use crate::db::{clock_shows, now_unix};
use crate::error::{AppError, Failure, Result};
use crate::outside;
use crate::text;

verus! {

/// What is signed: the user and the time of issue.
pub open spec fn signed_message(user_id: u64, issued_at: i64) -> Seq<char> {
    text::decimal(user_id as nat) + seq![':'] + text::decimal_int(issued_at as int)
}

/// The signature of a card link: the HMAC-SHA256 code of the user and the time of issue under
/// the secret, in hexadecimal digits.
pub open spec fn signature(user_id: u64, issued_at: i64, secret: Seq<char>) -> Seq<char> {
    outside::hex_text(
        outside::hmac_sha256(
            vstd::utf8::encode_utf8(secret),
            vstd::utf8::encode_utf8(signed_message(user_id, issued_at)),
        ),
    )
}

/// The link to the card of a user.
pub open spec fn card_link(
    base: Seq<char>,
    user_id: u64,
    issued_at: i64,
    secret: Seq<char>,
) -> Seq<char> {
    base + "/card/"@ + text::decimal(user_id as nat) + ".jpg?t="@ + text::decimal_int(
        issued_at as int,
    ) + "&sig="@ + signature(user_id, issued_at, secret)
}

/// Whether a link issued at `issued_at` may still be used at `now`.
pub open spec fn fresh(now: i64, issued_at: i64, ttl_secs: i64) -> bool {
    issued_at > 0 && now - issued_at <= ttl_secs
}

/// Signs the link to a user's card.
pub fn sign_card(user_id: u64, issued_at: i64, secret: &str) -> (res: String)
    ensures
        res@ == signature(user_id, issued_at, secret@),
        res@.len() == 64,
{
    let mut message = text::decimal_u64(user_id);
    message.push(':');
    let issued = text::decimal_i64(issued_at);
    message.append(issued.as_str());
    proof {
        assert(message@ =~= signed_message(user_id, issued_at));
    }
    let code = outside::hmac_sha256_code(secret.as_bytes(), message.as_str().as_bytes());
    outside::hex_encode(&code)
}

/// The link to a user's card, issued at a given time.
pub fn card_path_at(public_base_url: &str, user_id: u64, issued_at: i64, secret: &str) -> (res:
    String)
    ensures
        res@ == card_link(public_base_url@, user_id, issued_at, secret@),
{
    let user = text::decimal_u64(user_id);
    let issued = text::decimal_i64(issued_at);
    let sig = sign_card(user_id, issued_at, secret);
    let mut link = public_base_url.to_owned();
    link.append("/card/");
    link.append(user.as_str());
    link.append(".jpg?t=");
    link.append(issued.as_str());
    link.append("&sig=");
    link.append(sig.as_str());
    link
}

/// The link to a user's card, issued now.
pub fn card_path(public_base_url: &str, user_id: u64, secret: &str) -> (res: String)
    ensures
        exists|issued_at: i64|
            clock_shows(issued_at) && res@ == #[trigger] card_link(
                public_base_url@,
                user_id,
                issued_at,
                secret@,
            ),
{
    let issued_at: i64 = now_unix();
    card_path_at(public_base_url, user_id, issued_at, secret)
}

/// Whether two byte sequences are the same, found without stopping at the first difference.
fn same_bytes(a: &[u8], b: &[u8]) -> (res: bool)
    ensures
        res == (a@ == b@),
{
    if a.len() != b.len() {
        return false;
    }
    let mut mismatch: u8 = 0;
    let mut i: usize = 0;
    proof {
        assert(a@.take(0) =~= b@.take(0));
    }
    while i < a.len()
        invariant
            a@.len() == b@.len(),
            i <= a@.len(),
            mismatch == 0 <==> a@.take(i as int) == b@.take(i as int),
        decreases a@.len() - i,
    {
        let x: u8 = a[i];
        let y: u8 = b[i];
        let before: u8 = mismatch;
        mismatch = before | (x ^ y);
        proof {
            assert((before | (x ^ y)) == 0 <==> before == 0 && x == y) by (bit_vector);
            let left = a@.take(i + 1);
            let right = b@.take(i + 1);
            assert(left.drop_last() =~= a@.take(i as int));
            assert(right.drop_last() =~= b@.take(i as int));
            if mismatch == 0 {
                assert(left =~= left.drop_last().push(x));
                assert(right =~= right.drop_last().push(y));
            } else if left == right {
                assert(left[i as int] == right[i as int]);
            }
        }
        i += 1;
    }
    proof {
        assert(a@.take(i as int) =~= a@);
        assert(b@.take(i as int) =~= b@);
    }
    mismatch == 0
}

/// Checks a card link at a given time.
pub fn verify_card_at(
    now: i64,
    user_id: u64,
    issued_at: i64,
    sig: &str,
    secret: &str,
    ttl_secs: i64,
) -> (res: Result<()>)
    ensures
        res is Ok <==> fresh(now, issued_at, ttl_secs) && sig@ == signature(
            user_id,
            issued_at,
            secret@,
        ),
        sig@.len() != 64 ==> res is Err,
        res matches Err(err) ==> err@ == Failure::InvalidCardUrl,
{
    if issued_at <= 0 || now as i128 - issued_at as i128 > ttl_secs as i128 {
        return Err(AppError::InvalidCardUrl);
    }
    let expected = sign_card(user_id, issued_at, secret);
    let same = same_bytes(expected.as_str().as_bytes(), sig.as_bytes());
    proof {
        vstd::utf8::encode_utf8_decode_utf8(expected@);
        vstd::utf8::encode_utf8_decode_utf8(sig@);
    }
    if same {
        Ok(())
    } else {
        Err(AppError::InvalidCardUrl)
    }
}

/// Checks a card link now: that it was issued for this user under this secret, and not too long
/// ago.
pub fn verify_card(
    user_id: u64,
    issued_at: i64,
    sig: &str,
    secret: &str,
    ttl_secs: i64,
) -> (res: Result<()>)
    ensures
        exists|now: i64| #[trigger]
            clock_shows(now) && (res is Ok <==> fresh(now, issued_at, ttl_secs) && sig@
                == signature(user_id, issued_at, secret@)),
        sig@.len() != 64 ==> res is Err,
        res matches Err(err) ==> err@ == Failure::InvalidCardUrl,
{
    let now: i64 = now_unix();
    verify_card_at(now, user_id, issued_at, sig, secret, ttl_secs)
}

} // verus!
