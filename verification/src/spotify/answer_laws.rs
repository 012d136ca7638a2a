//! What holds of what is made of Spotify's answers.
use vstd::prelude::*;

use crate::render::card::text_of;
use crate::spotify::answer::{
    heard, images_in, images_of, listed, meaning, names, names_in, success, widest_at, widest_url,
    width_of, CurrentlyPlayingResponse, Image, Named,
};

verus! {

/// Something is heard exactly if the answer has an item, paused or not.
pub proof fn an_item_is_heard(response: CurrentlyPlayingResponse)
    ensures
        heard(response) is Some <==> response.item is Some,
{
}

/// A track is playing exactly if the answer says so: with an answer that says no, or nothing, it is
/// not.
pub proof fn playing_only_if_said(response: CurrentlyPlayingResponse)
    requires
        response.item is Some,
    ensures
        response.is_playing == Some(true) ==> heard(response)->0.is_playing,
        response.is_playing == Some(false) ==> !heard(response)->0.is_playing,
        response.is_playing is None ==> !heard(response)->0.is_playing,
{
}

/// The times are those of the answer, each in its place, and zero where it has none.
pub proof fn times_are_those_of_the_answer(response: CurrentlyPlayingResponse)
    requires
        response.item is Some,
    ensures
        response.progress_ms matches Some(ms) ==> heard(response)->0.progress_ms == ms,
        response.progress_ms is None ==> heard(response)->0.progress_ms == 0,
        response.item->0.duration_ms matches Some(ms) ==> heard(response)->0.duration_ms == ms,
        response.item->0.duration_ms is None ==> heard(response)->0.duration_ms == 0,
{
}

/// A name that is there and not empty is the title, or the album; no title and no album is empty.
pub proof fn names_are_those_of_the_answer(response: CurrentlyPlayingResponse)
    requires
        response.item is Some,
    ensures
        ({
            let item = response.item->0;
            let track = heard(response)->0;
            &&& item.name matches Some(name) ==> name@.len() > 0 ==> track.title == name@
            &&& item.name is None || item.name->0@.len() == 0 ==> track.title == "Unknown title"@
            &&& item.album matches Some(album) ==> {
                &&& album.name matches Some(name) ==> name@.len() > 0 ==> track.album == name@
                &&& album.name is None || album.name->0@.len() == 0 ==> track.album
                    == "Unknown album"@
            }
            &&& item.album is None ==> track.album == "Unknown album"@
        }),
{
}

/// The artists are those that are named, if that is anything; else the show, even without letters;
/// and a stand-in where there is neither.
pub proof fn artist_is_named(response: CurrentlyPlayingResponse)
    requires
        response.item is Some,
    ensures
        ({
            let item = response.item->0;
            let track = heard(response)->0;
            let by: Seq<char> = match item.artists {
                Some(artists) => listed(names(names_in(artists))),
                None => Seq::empty(),
            };
            &&& by.len() > 0 ==> track.artist == by
            &&& by.len() == 0 ==> match item.show {
                Some(Named { name: Some(name) }) => track.artist == name@,
                _ => track.artist == "Unknown artist"@,
            }
        }),
{
}

/// The link to the track is that of the answer.
pub proof fn link_is_that_of_the_answer(response: CurrentlyPlayingResponse)
    requires
        response.item is Some,
    ensures
        match response.item->0.external_urls {
            Some(urls) => heard(response)->0.spotify_url == text_of(urls.spotify),
            None => heard(response)->0.spotify_url is None,
        },
{
}

/// The cover is taken from the album's pictures if it has a list of them, even an empty one, and
/// from the item's own only if it has none.
pub proof fn cover_is_that_of_the_album(response: CurrentlyPlayingResponse)
    requires
        response.item is Some,
    ensures
        ({
            let item = response.item->0;
            let cover = heard(response)->0.album_art_url;
            match item.album {
                Some(album) if album.images is Some => cover == widest_url(
                    images_in(album.images->0),
                ),
                _ => match item.images {
                    Some(images) => cover == widest_url(images_in(images)),
                    None => cover is None,
                },
            }
        }),
{
    let item = response.item->0;
    if item.album is None || item.album->0.images is None {
        if item.images is None {
            assert(images_of(item).len() == 0);
            if exists|i: int| widest_at(images_of(item), i) {
                let i = choose|i: int| widest_at(images_of(item), i);
                assert(0 <= i < images_of(item).len());
            }
        }
    }
}

/// Names are gathered in their order, from one part of the list after the other; who has none
/// leaves no trace.
pub proof fn names_are_gathered_in_order(left: Seq<Named>, right: Seq<Named>)
    ensures
        names(left + right) == names(left) + names(right),
    decreases right.len(),
{
    if right.len() == 0 {
        assert(left + right =~= left);
        assert(names(left) + names(right) =~= names(left));
    } else {
        names_are_gathered_in_order(left, right.drop_last());
        assert((left + right).drop_last() =~= left + right.drop_last());
        assert((left + right).last() == right.last());
        if let Some(name) = right.last().name {
            assert((names(left) + names(right.drop_last())).push(name@) =~= names(left) + names(
                right.drop_last(),
            ).push(name@));
        }
    }
}

/// One artist alone.
pub proof fn one_name(artist: Named)
    ensures
        match artist.name {
            Some(name) => names(seq![artist]) == seq![name@],
            None => names(seq![artist]).len() == 0,
        },
{
    reveal_with_fuel(names, 2);
    assert(seq![artist].drop_last() =~= Seq::empty());
    if let Some(name) = artist.name {
        assert(names(seq![artist]) =~= seq![name@]);
    }
}

/// Listed texts stand one behind the other with a comma and a space between two of them, and nothing
/// around them.
pub proof fn listed_with_commas(left: Seq<Seq<char>>, right: Seq<Seq<char>>)
    requires
        left.len() > 0,
        right.len() > 0,
    ensures
        listed(left + right) == listed(left) + seq![',', ' '] + listed(right),
        right.len() == 1 ==> listed(right) == right[0],
    decreases right.len(),
{
    reveal_strlit(", ");
    assert(", "@ =~= seq![',', ' ']);
    assert((left + right).drop_last() =~= left + right.drop_last());
    assert((left + right).last() == right.last());
    if right.len() == 1 {
        assert(left + right.drop_last() =~= left);
    } else {
        listed_with_commas(left, right.drop_last());
        assert(listed(left) + seq![',', ' '] + listed(right.drop_last()) + ", "@ + right.last()
            =~= listed(left) + seq![',', ' '] + (listed(right.drop_last()) + ", "@
            + right.last()));
    }
}

proof fn lemma_widest(images: Seq<Image>, i: int)
    requires
        widest_at(images, i),
    ensures
        widest_url(images) == text_of(images[i].url),
{
    let j = choose|j: int| widest_at(images, j);
    assert(widest_at(images, j));
    assert(images[i].url is Some && images[j].url is Some);
    assert(i == j);
}

/// There is a link exactly if one of the pictures has one, and it is that of a picture that none
/// with a link is wider than.
pub proof fn widest_link_is_taken(images: Seq<Image>)
    ensures
        widest_url(images) is Some <==> exists|i: int|
            0 <= i < images.len() && (#[trigger] images[i]).url is Some,
        widest_url(images) is Some ==> exists|i: int|
            {
                &&& 0 <= i < images.len()
                &&& text_of((#[trigger] images[i]).url) == widest_url(images)
                &&& forall|j: int|
                    0 <= j < images.len() && (#[trigger] images[j]).url is Some ==> width_of(
                        images[j],
                    ) <= width_of(images[i])
            },
    decreases images.len(),
{
    lemma_some_widest(images);
    if exists|i: int| widest_at(images, i) {
        let i = choose|i: int| widest_at(images, i);
        lemma_widest(images, i);
        assert(images[i].url is Some);
    }
}

proof fn lemma_some_widest(images: Seq<Image>)
    ensures
        (exists|i: int| 0 <= i < images.len() && (#[trigger] images[i]).url is Some) ==> exists|
            i: int,
        | widest_at(images, i),
    decreases images.len(),
{
    if images.len() > 0 {
        let before = images.drop_last();
        let n = images.len() - 1;
        lemma_some_widest(before);
        assert forall|j: int| 0 <= j < n implies #[trigger] before[j] == images[j] by {}
        if exists|i: int| 0 <= i < before.len() && (#[trigger] before[i]).url is Some {
            let i = choose|i: int| widest_at(before, i);
            assert(widest_at(before, i));
            assert(before[i] == images[i]);
            if images[n].url is Some && width_of(images[n]) > width_of(images[i]) {
                assert forall|j: int| 0 <= j < n && (#[trigger] images[j]).url is Some implies width_of(
                    images[j],
                ) < width_of(images[n]) by {
                    assert(before[j].url is Some);
                }
                assert(widest_at(images, n));
            } else {
                assert forall|j: int|
                    0 <= j < images.len() && (#[trigger] images[j]).url is Some implies width_of(
                    images[j],
                ) <= width_of(images[i]) by {
                    if j < n {
                        assert(before[j].url is Some);
                    }
                }
                assert forall|j: int| 0 <= j < i && (#[trigger] images[j]).url is Some implies width_of(
                    images[j],
                ) < width_of(images[i]) by {
                    assert(before[j].url is Some);
                }
                assert(widest_at(images, i));
            }
        } else if images[n].url is Some {
            assert forall|j: int| 0 <= j < n implies (#[trigger] images[j]).url is None by {
                assert(before[j].url is None);
            }
            assert(widest_at(images, n));
        } else {
            assert forall|j: int| 0 <= j < images.len() implies (#[trigger] images[j]).url is None by {
                if j < n {
                    assert(before[j].url is None);
                }
            }
        }
    }
}

/// One more picture at the end is taken exactly if it has a link and is wider than all with a link
/// before it; a picture without a known width counts as the narrowest.
pub proof fn later_picture_must_be_wider(images: Seq<Image>, more: Image)
    requires
        widest_url(images) is Some,
    ensures
        more.url is None ==> widest_url(images.push(more)) == widest_url(images),
        more.width is None ==> widest_url(images.push(more)) == widest_url(images),
        more.url is Some && (forall|i: int|
            0 <= i < images.len() && (#[trigger] images[i]).url is Some ==> width_of(images[i])
                < width_of(more)) ==> widest_url(images.push(more)) == text_of(more.url),
        (exists|i: int|
            0 <= i < images.len() && (#[trigger] images[i]).url is Some && width_of(images[i])
                >= width_of(more)) ==> widest_url(images.push(more)) == widest_url(images),
{
    let all = images.push(more);
    let n = images.len() as int;
    let i = choose|i: int| widest_at(images, i);
    assert(widest_at(images, i));
    lemma_widest(images, i);
    assert forall|j: int| 0 <= j < n implies #[trigger] all[j] == images[j] by {}
    assert(all[n] == more);
    if more.url is Some && width_of(more) > width_of(images[i]) {
        assert forall|j: int| 0 <= j < n && (#[trigger] all[j]).url is Some implies width_of(all[j])
            < width_of(more) by {
            assert(images[j].url is Some);
        }
        assert(widest_at(all, n));
        lemma_widest(all, n);
    } else {
        assert forall|j: int| 0 <= j < all.len() && (#[trigger] all[j]).url is Some implies width_of(
            all[j],
        ) <= width_of(all[i]) by {
            if j < n {
                assert(images[j].url is Some);
            }
        }
        assert forall|j: int| 0 <= j < i && (#[trigger] all[j]).url is Some implies width_of(all[j])
            < width_of(all[i]) by {
            assert(images[j].url is Some);
        }
        assert(widest_at(all, i));
        lemma_widest(all, i);
    }
}

/// A known width is the width.
pub proof fn known_widths_count(image: Image)
    ensures
        image.width matches Some(width) ==> width_of(image) == width,
        image.width is None ==> width_of(image) == 0,
{
}

/// Two hundred and what follows is success; of that only 204 means that nothing is playing; 401
/// means that the access token was refused, and every other number is a refusal of another kind.
pub proof fn statuses_mean_one_thing_each(status: u16)
    ensures
        200 <= status <= 299 <==> success(status),
        meaning(status) is Nothing <==> status == 204,
        meaning(status) is Unauthorized <==> status == 401,
        meaning(status) is Content <==> 200 <= status <= 299 && status != 204,
        meaning(status) is Refused <==> !(200 <= status <= 299) && status != 401,
{
}

} // verus!
