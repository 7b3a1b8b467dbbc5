//! The decision core of the message handler. The chat client outside
//! the library downloads and hashes every attachment of a message; the
//! functions here feed the digests to the store, pick the duplicate to
//! report, and build the reply text. Network, download and hashing
//! stay outside.
use vstd::prelude::*;
use vstd::slice::slice_to_vec;
use vstd::string::{StrSliceExecFns, StringExecFns};

use crate::db::{DbOperation, MarsImage, StoreModel};
use crate::utils::convert::{le_bytes_of, le_i32_of, lemma_codec_round_trip};
use crate::utils::{msg_url, spec_msg_url};

verus! {

/// Whether the namespace holds this digest.
pub open spec fn spec_held(m: StoreModel, t: Seq<char>, k: Seq<u8>) -> bool {
    m.contains_key(t) && m[t].contains_key(k)
}

/// Whether `k` is one of the handed digests.
pub open spec fn digest_handed(hashes: Seq<Vec<u8>>, k: Seq<u8>) -> bool {
    exists|i: int| 0 <= i < hashes.len() && hashes[i]@ == k
}

/// Whether `k` is handed more than once.
pub open spec fn digest_handed_twice(hashes: Seq<Vec<u8>>, k: Seq<u8>) -> bool {
    exists|i: int, j: int| 0 <= i < j < hashes.len() && hashes[i]@ == k && hashes[j]@ == k
}

/// Hand every digest of one message to the store under the message's
/// identifier, and keep the last answer the store accepted: the
/// pre-existing record when that digest was a duplicate, nothing
/// otherwise. A failed store call is skipped, as the handler logs and
/// drops it.
///
/// A reported record always carries a handed digest and the first
/// writer's identifier: the one stored before the call, or this
/// message's own when the same digest was handed twice. When no
/// handed digest was already held and none repeats, nothing is
/// reported. Whatever happens, no other namespace changes, no record
/// the namespace already held is lost or altered, and nothing beyond
/// the handed digests is added.
pub fn find_mars<T: DbOperation>(
    store: &mut T,
    table: &str,
    msg_id: i32,
    hashes: &Vec<Vec<u8>>,
) -> (r: Option<MarsImage>)
    requires
        old(store).inv(),
    ensures
        final(store).inv(),
        ({
            let pre = old(store).model();
            let post = final(store).model();
            &&& forall|ns: Seq<char>|
                ns != table@ ==> ((#[trigger] post.contains_key(ns)) <==> pre.contains_key(ns))
            &&& forall|ns: Seq<char>|
                ns != table@ && pre.contains_key(ns) ==> (#[trigger] post[ns]) == pre[ns]
            &&& pre.contains_key(table@) ==> post.contains_key(table@)
            &&& forall|k: Seq<u8>|
                pre.contains_key(table@) && (#[trigger] pre[table@].contains_key(k))
                    ==> post.contains_key(table@) && post[table@].contains_key(k)
                    && post[table@][k] == pre[table@][k]
            &&& forall|k: Seq<u8>|
                post.contains_key(table@) && (#[trigger] post[table@].contains_key(k))
                    ==> spec_held(pre, table@, k) || (digest_handed(hashes@, k) && post[table@][k]
                    == le_bytes_of(msg_id))
            &&& hashes@.len() == 0 ==> r is None
            &&& ((forall|i: int|
                0 <= i < hashes@.len() ==> !spec_held(pre, table@, (#[trigger] hashes@[i])@))
                && (forall|i: int, j: int|
                0 <= i < j < hashes@.len() ==> (#[trigger] hashes@[i])@ != (
                #[trigger] hashes@[j])@)) ==> r is None
            &&& r matches Some(img) ==> digest_handed(hashes@, img.sha@) && spec_held(
                post,
                table@,
                img.sha@,
            ) && post[table@][img.sha@].len() == 4 && img.id == le_i32_of(
                post[table@][img.sha@],
            )
            &&& r matches Some(img) ==> (spec_held(pre, table@, img.sha@) ==> img.id == le_i32_of(
                pre[table@][img.sha@],
            ))
            &&& r matches Some(img) ==> (!spec_held(pre, table@, img.sha@) ==> img.id == msg_id
                && digest_handed_twice(hashes@, img.sha@))
        }),
{
    let ghost fresh_all = forall|i: int|
        0 <= i < hashes@.len() ==> !spec_held(old(store).model(), table@, (#[trigger] hashes@[i])@);
    let ghost distinct = forall|i: int, j: int|
        0 <= i < j < hashes@.len() ==> (#[trigger] hashes@[i])@ != (#[trigger] hashes@[j])@;
    let mut results: Vec<Option<MarsImage>> = Vec::new();
    let n = hashes.len();
    let mut idx: usize = 0;
    while idx < n
        invariant
            store.inv(),
            n == hashes@.len(),
            idx <= n,
            fresh_all == (forall|i: int|
                0 <= i < hashes@.len() ==> !spec_held(
                    old(store).model(),
                    table@,
                    (#[trigger] hashes@[i])@,
                )),
            distinct == (forall|i: int, j: int|
                0 <= i < j < hashes@.len() ==> (#[trigger] hashes@[i])@ != (
                #[trigger] hashes@[j])@),
            ({
                let pre = old(store).model();
                let cur = store.model();
                &&& forall|ns: Seq<char>|
                    ns != table@ ==> ((#[trigger] cur.contains_key(ns)) <==> pre.contains_key(
                        ns,
                    ))
                &&& forall|ns: Seq<char>|
                    ns != table@ && pre.contains_key(ns) ==> (#[trigger] cur[ns]) == pre[ns]
                &&& pre.contains_key(table@) ==> cur.contains_key(table@)
                &&& forall|k: Seq<u8>|
                    pre.contains_key(table@) && (#[trigger] pre[table@].contains_key(k))
                        ==> cur.contains_key(table@) && cur[table@].contains_key(k)
                        && cur[table@][k] == pre[table@][k]
                &&& forall|k: Seq<u8>|
                    cur.contains_key(table@) && (#[trigger] cur[table@].contains_key(k))
                        ==> spec_held(pre, table@, k) || (exists|j: int|
                        0 <= j < idx && (#[trigger] hashes@[j])@ == k && cur[table@][k]
                            == le_bytes_of(msg_id))
                &&& fresh_all && distinct ==> forall|p: int|
                    0 <= p < results@.len() ==> (#[trigger] results@[p]) is None
                &&& results@.len() > 0 ==> (results@.last() matches Some(img) ==> digest_handed(
                    hashes@,
                    img.sha@,
                ) && spec_held(cur, table@, img.sha@) && cur[table@][img.sha@].len() == 4
                    && img.id == le_i32_of(cur[table@][img.sha@]) && (spec_held(
                    pre,
                    table@,
                    img.sha@,
                ) ==> img.id == le_i32_of(pre[table@][img.sha@])) && (!spec_held(
                    pre,
                    table@,
                    img.sha@,
                ) ==> img.id == msg_id && digest_handed_twice(hashes@, img.sha@)))
            }),
        decreases n - idx,
    {
        let ghost cur_before = store.model();
        let sha = slice_to_vec(hashes[idx].as_slice());
        let ghost this_sha = sha@;
        match store.insert_or_get_existing(table, MarsImage::new(msg_id, sha)) {
            Ok(o) => {
                proof {
                    if o is Some {
                        let img = o->Some_0;
                        assert(hashes@[idx as int]@ == this_sha);
                        assert(spec_held(cur_before, table@, this_sha));
                        if !spec_held(old(store).model(), table@, this_sha) {
                            let j = choose|j: int|
                                0 <= j < idx && hashes@[j]@ == this_sha
                                    && cur_before[table@][this_sha] == le_bytes_of(msg_id);
                            assert(hashes@[j]@ == this_sha && hashes@[idx as int]@ == this_sha
                                && j < idx);
                            lemma_codec_round_trip(msg_id);
                            assert(digest_handed_twice(hashes@, this_sha));
                        }
                        if fresh_all && distinct {
                            assert(!spec_held(old(store).model(), table@, hashes@[idx as int]@));
                            assert(false);
                        }
                    }
                }
                results.push(o);
            },
            Err(_) => {},
        }
        idx += 1;
    }
    pick_conflict(results)
}

/// The duplicate the handler reports: the store's answer for the last
/// attachment it accepted. One duplicate means every scaled copy of
/// the image is one, so the last answer decides alone.
pub fn pick_conflict(results: Vec<Option<MarsImage>>) -> (r: Option<MarsImage>)
    ensures
        results@.len() == 0 ==> r is None,
        results@.len() > 0 ==> r == results@.last(),
{
    let mut results = results;
    match results.pop() {
        Some(o) => o,
        None => None,
    }
}

/// The template with `value` put in place of its first `{}`; a
/// template without a placeholder stays as it is.
pub open spec fn spec_fill(t: Seq<char>, v: Seq<char>) -> Seq<char>
    decreases t.len(),
{
    if t.len() < 2 {
        t
    } else if t[0] == '{' && t[1] == '}' {
        v + t.subrange(2, t.len() as int)
    } else {
        seq![t[0]] + spec_fill(t.drop_first(), v)
    }
}

/// Filling distributes over a placeholder-free head.
proof fn lemma_fill_skip(t: Seq<char>, v: Seq<char>, i: int)
    requires
        0 <= i <= t.len(),
        forall|j: int| 0 <= j < i ==> !(j + 1 < t.len() && (#[trigger] t[j]) == '{' && t[j + 1] == '}'),
    ensures
        spec_fill(t, v) == t.subrange(0, i) + spec_fill(t.subrange(i, t.len() as int), v),
    decreases i,
{
    if i == 0 {
        assert(t.subrange(0, t.len() as int) =~= t);
        assert(spec_fill(t, v) =~= t.subrange(0, 0) + spec_fill(t, v));
    } else {
        let t1 = t.drop_first();
        assert(!(1 < t.len() && t[0int] == '{' && t[1int] == '}'));
        if t.len() < 2 {
            assert(spec_fill(t, v) == t);
            assert(t.subrange(i, t.len() as int).len() < 2);
            assert(t =~= t.subrange(0, i) + t.subrange(i, t.len() as int));
        } else {
            assert forall|j: int| 0 <= j < i - 1 implies !(j + 1 < t1.len() && (#[trigger] t1[j])
                == '{' && t1[j + 1] == '}') by {
                assert(t[j + 1] == t1[j]);
                assert(j + 2 < t.len() ==> t[j + 2] == t1[j + 1]);
            }
            lemma_fill_skip(t1, v, i - 1);
            assert(t1.subrange(0, i - 1) =~= t.subrange(1, i));
            assert(t1.subrange(i - 1, t1.len() as int) =~= t.subrange(i, t.len() as int));
            assert(seq![t[0]] + t.subrange(1, i) =~= t.subrange(0, i));
            assert(spec_fill(t, v) == seq![t[0]] + spec_fill(t1, v));
            assert(spec_fill(t, v) =~= t.subrange(0, i) + spec_fill(
                t.subrange(i, t.len() as int),
                v,
            ));
        }
    }
}

/// `template` with `value` in place of its first `{}`.
pub fn fill_template(template: &str, value: &str) -> (r: String)
    ensures
        r@ == spec_fill(template@, value@),
{
    let n = template.unicode_len();
    let mut i: usize = 0;
    while i < n && i + 1 < n
        invariant
            n == template@.len(),
            i <= n,
            forall|j: int|
                0 <= j < i ==> !(j + 1 < template@.len() && (#[trigger] template@[j]) == '{'
                    && template@[j + 1] == '}'),
        decreases n - i,
    {
        if template.get_char(i) == '{' && template.get_char(i + 1) == '}' {
            proof {
                lemma_fill_skip(template@, value@, i as int);
                assert(template@.subrange(i as int, n as int)[0] == '{');
                assert(template@.subrange(i as int, n as int)[1] == '}');
                assert(template@.subrange(i as int, n as int).subrange(
                    2,
                    (n - i) as int,
                ) =~= template@.subrange(i as int + 2, n as int));
            }
            let mut r = template.substring_char(0, i).to_owned();
            r.append(value);
            r.append(template.substring_char(i + 2, n));
            proof {
                assert(r@ =~= spec_fill(template@, value@));
            }
            return r;
        }
        i += 1;
    }
    proof {
        lemma_fill_skip(template@, value@, i as int);
        assert(template@.subrange(i as int, n as int).len() < 2);
        assert(spec_fill(template@, value@) =~= template@);
    }
    template.to_owned()
}

/// The reply for a found duplicate: the configured template with the
/// original message's link in place of its placeholder.
pub fn mars_reply_text(
    prompt: &str,
    chat_invite_link: Option<&str>,
    chat_id: i64,
    mars_msg_id: i32,
) -> (r: String)
    ensures
        r@ == spec_fill(
            prompt@,
            spec_msg_url(
                match chat_invite_link {
                    Some(l) => Some(l@),
                    None => None,
                },
                chat_id as int,
                mars_msg_id as int,
            ),
        ),
{
    let url = msg_url(chat_invite_link, chat_id, mars_msg_id);
    fill_template(prompt, url.as_str())
}

} // verus!
