//! What holds of the settings.
use vstd::prelude::*;

use crate::config::{
    admins, base_url, bind_text, configured, last_value, missing, pieces, separates, setting,
    setting_or,
};
use crate::error::Failure;
use crate::text::{trimmed, white_space};
use crate::text_laws::trimming_takes_white_space_only;

verus! {

/// A variable that is set again has its new value, and no other variable changes.
pub proof fn the_last_value_counts(
    vars: Seq<(String, String)>,
    more: (String, String),
    other: Seq<char>,
)
    ensures
        last_value(vars.push(more), more.0@) == Some(more.1@),
        other != more.0@ ==> last_value(vars.push(more), other) == last_value(vars, other),
        last_value(Seq::empty(), other) is None,
{
    assert(vars.push(more).drop_last() =~= vars);
    assert(vars.push(more).last() == more);
}

/// What is set is not empty, and has no white space around it; a variable with nothing but white
/// space is as good as none. A text that is set comes before the one that stands in for it.
pub proof fn settings_are_trimmed(
    vars: Seq<(String, String)>,
    name: Seq<char>,
    other: Seq<char>,
)
    ensures
        setting(vars, name) matches Some(value) ==> {
            &&& value.len() > 0
            &&& !white_space(value[0]) && !white_space(value.last())
            &&& last_value(vars, name) is Some
            &&& value == trimmed(last_value(vars, name)->0)
            &&& setting_or(vars, name, other) == value
        },
        setting(vars, name) is None ==> setting_or(vars, name, other) == other && (last_value(
            vars,
            name,
        ) is None || trimmed(last_value(vars, name)->0).len() == 0),
{
    if let Some(value) = last_value(vars, name) {
        trimming_takes_white_space_only(value);
    }
}

/// The base of the links is the normal form of a URL over HTTP, but for one slash at its end; what
/// is no such URL is refused.
pub proof fn base_is_the_url_without_a_slash(
    scheme: Seq<char>,
    normal: Seq<char>,
    why: Seq<char>,
)
    ensures
        base_url(Err(why)) is Err,
        scheme == "http"@ || scheme == "https"@ <==> base_url(Ok((scheme, normal))) is Ok,
        base_url(Ok((scheme, normal))) matches Ok(base) ==> {
            &&& normal == base || normal == base.push('/')
            &&& normal == base <==> normal.len() == 0 || normal.last() != '/'
        },
{
    if base_url(Ok((scheme, normal))) is Ok && normal.len() > 0 {
        assert(normal.drop_last().push(normal.last()) =~= normal);
    }
}

/// The settings are good exactly if the four that must be set are, the URL and the address are good
/// and so are the ids; and then each is what was set for it, or what stands in for it.
pub proof fn settings_are_what_was_set(
    vars: Seq<(String, String)>,
    parsed: std::result::Result<(Seq<char>, Seq<char>), Seq<char>>,
    bind: std::result::Result<(), Seq<char>>,
)
    ensures
        configured(vars, parsed, bind) is Ok <==> {
            &&& setting(vars, "TELEGRAM_BOT_TOKEN"@) is Some
            &&& setting(vars, "SPOTIFY_CLIENT_ID"@) is Some
            &&& setting(vars, "SPOTIFY_CLIENT_SECRET"@) is Some
            &&& setting(vars, "PUBLIC_BASE_URL"@) is Some
            &&& base_url(parsed) is Ok
            &&& bind is Ok
            &&& last_value(vars, "ADMIN_USER_IDS"@) is None || admins(
                last_value(vars, "ADMIN_USER_IDS"@)->0,
            ) is Ok
        },
        configured(vars, parsed, bind) matches Ok(settings) ==> {
            &&& Some(settings.telegram_bot_token) == setting(vars, "TELEGRAM_BOT_TOKEN"@)
            &&& Some(settings.spotify_client_id) == setting(vars, "SPOTIFY_CLIENT_ID"@)
            &&& Some(settings.spotify_client_secret) == setting(vars, "SPOTIFY_CLIENT_SECRET"@)
            &&& settings.public_base_url == base_url(parsed)->Ok_0
            &&& setting(vars, "OAUTH_REDIRECT_URI"@) matches Some(uri)
                ==> settings.oauth_redirect_uri == uri
            &&& setting(vars, "OAUTH_REDIRECT_URI"@) is None ==> settings.oauth_redirect_uri
                == settings.public_base_url + "/oauth/callback"@
            &&& setting(vars, "REDB_PATH"@) matches Some(path) ==> settings.redb_path == path
            &&& setting(vars, "REDB_PATH"@) is None ==> settings.redb_path == "./data/bot.redb"@
            &&& setting(vars, "HTTP_BIND"@) matches Some(at) ==> settings.http_bind == at
            &&& setting(vars, "HTTP_BIND"@) is None ==> settings.http_bind == "0.0.0.0:8080"@
            &&& setting(vars, "CARD_SIGNING_SECRET"@) matches Some(secret)
                ==> settings.card_signing_secret == secret
            &&& setting(vars, "CARD_SIGNING_SECRET"@) is None ==> settings.card_signing_secret
                == "card:"@ + settings.telegram_bot_token
            &&& last_value(vars, "ADMIN_USER_IDS"@) matches Some(raw) ==> admins(raw)
                == Ok::<Seq<u64>, Failure>(settings.admin_ids)
            &&& last_value(vars, "ADMIN_USER_IDS"@) is None ==> settings.admin_ids.len() == 0
            &&& settings.http.request_timeout_secs == 20
            &&& settings.http.oauth_state_ttl_secs == 900
            &&& settings.http.card_url_ttl_secs == 300
        },
{
}

/// Of several things that are wrong the first is reported: the four that must be set in their order,
/// then the URL, the address and the ids.
pub proof fn the_first_fault_is_reported(
    vars: Seq<(String, String)>,
    parsed: std::result::Result<(Seq<char>, Seq<char>), Seq<char>>,
    bind: std::result::Result<(), Seq<char>>,
)
    ensures
        ({
            let token = setting(vars, "TELEGRAM_BOT_TOKEN"@) is Some;
            let id = setting(vars, "SPOTIFY_CLIENT_ID"@) is Some;
            let secret = setting(vars, "SPOTIFY_CLIENT_SECRET"@) is Some;
            let base = setting(vars, "PUBLIC_BASE_URL"@) is Some;
            let outcome = configured(vars, parsed, bind);
            &&& !token ==> outcome->Err_0 == missing("TELEGRAM_BOT_TOKEN"@)
            &&& token && !id ==> outcome->Err_0 == missing("SPOTIFY_CLIENT_ID"@)
            &&& token && id && !secret ==> outcome->Err_0 == missing("SPOTIFY_CLIENT_SECRET"@)
            &&& token && id && secret && !base ==> outcome->Err_0 == missing("PUBLIC_BASE_URL"@)
            &&& token && id && secret && base && base_url(parsed) is Err ==> outcome->Err_0
                == base_url(parsed)->Err_0
            &&& token && id && secret && base && base_url(parsed) is Ok && bind is Err
                ==> outcome->Err_0 == Failure::Config("Invalid HTTP_BIND: "@ + bind->Err_0)
        }),
{
}

/// A list of ids is parted at commas and white space, and only there: pieces hold no such character,
/// and one between two texts parts them.
pub proof fn lists_are_parted_at_commas_and_spaces(left: Seq<char>, mark: char, right: Seq<char>)
    requires
        mark == ',' || white_space(mark),
    ensures
        pieces(left + seq![mark] + right) == pieces(left) + pieces(right),
    decreases right.len(),
{
    lemma_some_piece(left);
    lemma_some_piece(right);
    let done = left + seq![mark];
    let whole = done + right;
    if right.len() == 0 {
        assert(whole =~= done);
        assert(done.drop_last() =~= left);
        assert(done.last() == mark);
        assert(pieces(left) + pieces(right) =~= pieces(left).push(Seq::empty()));
    } else {
        lists_are_parted_at_commas_and_spaces(left, mark, right.drop_last());
        lemma_some_piece(right.drop_last());
        assert(whole.drop_last() =~= done + right.drop_last());
        assert(whole.last() == right.last());
        let a = pieces(left);
        let b = pieces(right.drop_last());
        if separates(right.last()) {
            assert((a + b).push(Seq::empty()) =~= a + b.push(Seq::empty()));
        } else {
            assert((a + b).last() == b.last());
            assert((a + b).drop_last().push(b.last().push(right.last())) =~= a + b.drop_last().push(
                b.last().push(right.last()),
            ));
        }
    }
}

proof fn lemma_some_piece(text: Seq<char>)
    ensures
        pieces(text).len() > 0,
    decreases text.len(),
{
    if text.len() > 0 {
        lemma_some_piece(text.drop_last());
    }
}

/// A text without commas and white space is one piece.
pub proof fn unparted_text_is_one_piece(text: Seq<char>)
    requires
        forall|i: int| 0 <= i < text.len() ==> #[trigger] text[i] != ',' && !white_space(text[i]),
    ensures
        pieces(text) == seq![text],
    decreases text.len(),
{
    if text.len() > 0 {
        assert forall|i: int| 0 <= i < text.drop_last().len() implies #[trigger] text.drop_last()[i]
            != ',' && !white_space(text.drop_last()[i]) by {
            assert(text[i] == text.drop_last()[i]);
        }
        unparted_text_is_one_piece(text.drop_last());
        assert(text[text.len() - 1] != ',');
        assert(text.drop_last().push(text.last()) =~= text);
        assert(pieces(text) =~= seq![text]);
    } else {
        assert(text =~= Seq::empty());
        assert(pieces(text) =~= seq![text]);
    }
}

/// The address that is looked at is the one that is used.
pub proof fn the_address_used_is_the_one_checked(
    vars: Seq<(String, String)>,
    parsed: std::result::Result<(Seq<char>, Seq<char>), Seq<char>>,
    bind: std::result::Result<(), Seq<char>>,
)
    ensures
        configured(vars, parsed, bind) matches Ok(settings) ==> settings.http_bind == bind_text(vars),
{
}

} // verus!
