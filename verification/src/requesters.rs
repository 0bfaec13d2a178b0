//! The Discord users who may ask for alarms.
use vstd::prelude::*;

use crate::order;
use crate::order::{put_in_order, Ranked};
use crate::seqs;
use crate::text;

verus! {

/// What stands between the angle brackets of a mention, or the text itself if it is no mention.
pub open spec fn mention_body(s: Seq<char>) -> Seq<char> {
    match text::after_prefix(s, "<@"@) {
        Some(rest) => if rest.len() > 0 && rest.last() == '>' {
            rest.drop_last()
        } else {
            s
        },
        None => s,
    }
}

/// `s` without the exclamation mark that it may begin with.
pub open spec fn without_mark(s: Seq<char>) -> Seq<char> {
    if s.len() > 0 && s[0] == '!' {
        s.skip(1)
    } else {
        s
    }
}

/// Whether `s` is the number of a Discord user: decimal digits, at least one.
pub open spec fn is_user_id(s: Seq<char>) -> bool {
    s.len() > 0 && text::all_digits(s)
}

/// The number of the Discord user that a text names, by the number itself or by a mention.
pub open spec fn user_id_of(value: Seq<char>) -> Option<Seq<char>> {
    let candidate = without_mark(mention_body(text::trimmed(value)));
    if is_user_id(candidate) {
        Some(candidate)
    } else {
        None
    }
}

/// The number of the Discord user that a text names.
pub fn normalize_discord_user_id(value: &str) -> (id: Option<String>)
    ensures
        id.deep_view() == user_id_of(value@),
{
    let inner = text::trim(value);
    let body: &str = match text::strip_prefix(inner, "<@") {
        Some(rest) => {
            let length: usize = text::chars_of(rest).len();
            if length > 0 && rest.get_char(length - 1) == '>' {
                assert(rest@.subrange(0, length - 1) == rest@.drop_last());
                rest.substring_char(0, length - 1)
            } else {
                inner
            }
        },
        None => inner,
    };
    assert(body@ == mention_body(inner@));
    let length: usize = text::chars_of(body).len();
    let candidate: &str = if length > 0 && body.get_char(0) == '!' {
        assert(body@.subrange(1, length as int) == body@.skip(1));
        body.substring_char(1, length)
    } else {
        body
    };
    if candidate.is_empty() || !text::only_digits(candidate) {
        None
    } else {
        Some(candidate.to_owned())
    }
}

/// The number of the Discord user that a text names.
pub fn normalize_allowed_requester_id(value: &str) -> (id: Option<String>)
    ensures
        id.deep_view() == user_id_of(value@),
{
    normalize_discord_user_id(value)
}

/// The characters that part the users in a list: comma, semicolon, and the white space of ASCII.
pub const USER_SEPARATORS: &'static str = ",; \t\n\u{c}\r";

/// Whether a list names a user.
pub open spec fn names_user(list: Seq<char>, id: Seq<char>) -> bool {
    exists|k: int|
        0 <= k < text::pieces(list, USER_SEPARATORS@).len() && user_id_of(
            #[trigger] text::pieces(list, USER_SEPARATORS@)[k],
        ) == Some(id)
}

/// The users that a list names.
pub open spec fn users_in(list: Seq<char>) -> Set<Seq<char>> {
    Set::new(|id: Seq<char>| names_user(list, id))
}

/// Whether `ids` holds the users of a set, each once, in order.
pub open spec fn is_listing(ids: Seq<Seq<char>>, users: Set<Seq<char>>) -> bool {
    &&& order::in_order(ids)
    &&& ids.no_duplicates()
    &&& forall|id: Seq<char>| #[trigger] ids.contains(id) <==> users.contains(id)
}

/// The users of a set, each once, in order.
pub open spec fn listing(users: Set<Seq<char>>) -> Seq<Seq<char>> {
    choose|ids: Seq<Seq<char>>| is_listing(ids, users)
}

/// The list that names the users of a set: one per line, each once, in order.
pub open spec fn list_of(users: Set<Seq<char>>) -> Seq<char> {
    text::joined(listing(users), "\n"@)
}

/// There is only one listing of a set.
pub proof fn listing_is_unique(ids: Seq<Seq<char>>, users: Set<Seq<char>>)
    requires
        is_listing(ids, users),
    ensures
        ids == listing(users),
{
    let other = listing(users);
    assert(is_listing(other, users));
    assert forall|id: Seq<char>| #[trigger] ids.contains(id) <==> other.contains(id) by {}
    lemma_same_listing(ids, other);
}

proof fn lemma_same_listing(a: Seq<Seq<char>>, b: Seq<Seq<char>>)
    requires
        order::in_order(a),
        order::in_order(b),
        a.no_duplicates(),
        b.no_duplicates(),
        forall|id: Seq<char>| #[trigger] a.contains(id) <==> b.contains(id),
    ensures
        a == b,
    decreases a.len(),
{
    if a.len() == 0 {
        if b.len() > 0 {
            assert(b.contains(b[0]));
            assert(a.contains(b[0]));
        }
        assert(a =~= b);
    } else {
        assert(a.contains(a.last()));
        assert(b.contains(a.last()));
        assert(b.len() > 0);
        assert(b.contains(b.last()));
        assert(a.contains(b.last()));
        let i = choose|i: int| 0 <= i < a.len() && a[i] == b.last();
        let j = choose|j: int| 0 <= j < b.len() && b[j] == a.last();
        text::text_order_is_total(a.last(), b.last());
        if i < a.len() - 1 {
            assert(!a.last().precedes(a[i]));
        }
        if j < b.len() - 1 {
            assert(!b.last().precedes(b[j]));
        }
        Seq::<char>::precedes_is_asymmetric(a.last(), a.last());
        assert(a.last() == b.last());
        let a1 = a.drop_last();
        let b1 = b.drop_last();
        assert forall|id: Seq<char>| #[trigger] a1.contains(id) <==> b1.contains(id) by {
            if a1.contains(id) {
                let k = choose|k: int| 0 <= k < a1.len() && a1[k] == id;
                assert(a[k] == id);
                assert(a.contains(id));
                let m = choose|m: int| 0 <= m < b.len() && b[m] == id;
                assert(m != b.len() - 1);
                assert(b1[m] == id);
            }
            if b1.contains(id) {
                let k = choose|k: int| 0 <= k < b1.len() && b1[k] == id;
                assert(b[k] == id);
                assert(b.contains(id));
                assert(a.contains(id));
                let m = choose|m: int| 0 <= m < a.len() && a[m] == id;
                assert(m != a.len() - 1);
                assert(a1[m] == id);
            }
        }
        lemma_same_listing(a1, b1);
        assert(a =~= a1.push(a.last()));
        assert(b =~= b1.push(b.last()));
    }
}

/// Putting different ids in order gives a listing of them.
proof fn lemma_ordered_is_listing(ids: Seq<Seq<char>>, users: Set<Seq<char>>)
    requires
        ids.no_duplicates(),
        forall|id: Seq<char>| #[trigger] ids.contains(id) <==> users.contains(id),
    ensures
        is_listing(order::ordered(ids), users),
        order::ordered(ids) == listing(users),
{
    let sorted = order::ordered(ids);
    order::ordered_is_stable_order(ids);
    order::order_keeps_members(ids);
    ids.lemma_multiset_has_no_duplicates();
    sorted.lemma_multiset_has_no_duplicates_conv();
    listing_is_unique(sorted, users);
}

/// Whether a text is among others.
pub fn is_among(ids: &Vec<String>, id: &str) -> (found: bool)
    ensures
        found == ids.deep_view().contains(id@),
{
    let mut i: usize = 0;
    while i < ids.len()
        invariant
            i <= ids@.len(),
            forall|j: int| 0 <= j < i ==> #[trigger] ids.deep_view()[j] != id@,
        decreases ids@.len() - i,
    {
        assert(ids.deep_view()[i as int] == ids@[i as int]@);
        if text::same_text(ids[i].as_str(), id) {
            return true;
        }
        i = i + 1;
    }
    false
}

/// The users that a list names, each once, in the order in which they are first named.
fn allowed_discord_user_ids(list: &str) -> (ids: Vec<String>)
    ensures
        ids.deep_view().no_duplicates(),
        forall|id: Seq<char>| #[trigger]
            ids.deep_view().contains(id) <==> users_in(list@).contains(id),
{
    let parts = text::split(list, USER_SEPARATORS);
    let ghost named = text::pieces(list@, USER_SEPARATORS@);
    let mut ids: Vec<String> = Vec::new();
    let mut i: usize = 0;
    while i < parts.len()
        invariant
            i <= parts@.len(),
            parts.deep_view() == named,
            ids.deep_view().no_duplicates(),
            forall|id: Seq<char>| #[trigger]
                ids.deep_view().contains(id) <==> exists|k: int|
                    0 <= k < i && user_id_of(#[trigger] named[k]) == Some(id),
        decreases parts@.len() - i,
    {
        assert(named[i as int] == parts@[i as int]@);
        let ghost before = ids.deep_view();
        let ghost here = user_id_of(named[i as int]);
        match normalize_discord_user_id(parts[i].as_str()) {
            Some(id) => {
                if !is_among(&ids, id.as_str()) {
                    ids.push(id);
                    assert(ids.deep_view() == before.push(id@));
                    assert forall|x: Seq<char>| #[trigger]
                        ids.deep_view().contains(x) <==> before.contains(x) || x == id@ by {
                        if before.contains(x) {
                            let k = choose|k: int| 0 <= k < before.len() && before[k] == x;
                            assert(ids.deep_view()[k] == x);
                        }
                        if x == id@ {
                            assert(ids.deep_view()[before.len() as int] == x);
                        }
                    }
                }
            },
            None => {},
        }
        assert forall|id: Seq<char>| #[trigger] ids.deep_view().contains(id) <==> exists|k: int|
            0 <= k < i + 1 && user_id_of(#[trigger] named[k]) == Some(id) by {
            if exists|k: int| 0 <= k < i + 1 && user_id_of(#[trigger] named[k]) == Some(id) {
                let k = choose|k: int|
                    0 <= k < i + 1 && user_id_of(#[trigger] named[k]) == Some(id);
                if k < i {
                    assert(before.contains(id));
                }
            }
            if ids.deep_view().contains(id) {
                if before.contains(id) {
                    let k = choose|k: int|
                        0 <= k < i && user_id_of(#[trigger] named[k]) == Some(id);
                    assert(user_id_of(named[k]) == Some(id));
                } else {
                    assert(user_id_of(named[i as int]) == Some(id));
                }
            }
        }
        i = i + 1;
    }
    ids
}

/// Whether a user may ask for alarms: the owner may, and so may the users on the list.
pub fn requester_is_allowed(
    owner_discord_user_id: &str,
    allowed_requester_ids: &str,
    requester_discord_user_id: &str,
) -> (allowed: bool)
    ensures
        allowed == is_allowed(
            owner_discord_user_id@,
            allowed_requester_ids@,
            requester_discord_user_id@,
        ),
{
    text::same_text(requester_discord_user_id, owner_discord_user_id) || is_among(
        &allowed_discord_user_ids(allowed_requester_ids),
        requester_discord_user_id,
    )
}

/// Whether a user may ask for alarms: the owner may, and so may the users on the list.
pub open spec fn is_allowed(owner: Seq<char>, list: Seq<char>, requester: Seq<char>) -> bool {
    requester == owner || users_in(list).contains(requester)
}

/// The users that a list names, each once, in order.
pub fn allowed_requester_ids(list: &str) -> (ids: Vec<String>)
    ensures
        ids.deep_view() == listing(users_in(list@)),
        is_listing(ids.deep_view(), users_in(list@)),
{
    let ids = allowed_discord_user_ids(list);
    proof {
        lemma_ordered_is_listing(ids.deep_view(), users_in(list@));
    }
    put_in_order(ids)
}

/// The users of a list after one was added. A text that names no user adds none.
pub open spec fn with_user(users: Set<Seq<char>>, user: Seq<char>) -> Set<Seq<char>> {
    match user_id_of(user) {
        Some(id) => users.insert(id),
        None => users,
    }
}

/// The users of a list after one was taken off. A text that names no user takes none off.
pub open spec fn without_user(users: Set<Seq<char>>, user: Seq<char>) -> Set<Seq<char>> {
    match user_id_of(user) {
        Some(id) => users.remove(id),
        None => users,
    }
}

/// The list with one more user.
pub fn add_allowed_requester(existing: &str, user_id: &str) -> (list: String)
    ensures
        list@ == list_of(with_user(users_in(existing@), user_id@)),
{
    let mut ids = allowed_requester_ids(existing);
    let ghost before = ids.deep_view();
    let ghost users = with_user(users_in(existing@), user_id@);
    match normalize_discord_user_id(user_id) {
        Some(id) => {
            if !is_among(&ids, id.as_str()) {
                ids.push(id);
                assert(ids.deep_view() == before.push(id@));
                assert forall|x: Seq<char>| #[trigger]
                    ids.deep_view().contains(x) <==> users.contains(x) by {
                    if before.contains(x) {
                        let k = choose|k: int| 0 <= k < before.len() && before[k] == x;
                        assert(ids.deep_view()[k] == x);
                    }
                    if x == id@ {
                        assert(ids.deep_view()[before.len() as int] == x);
                    }
                }
            }
        },
        None => {},
    }
    assert(ids.deep_view().no_duplicates());
    proof {
        lemma_ordered_is_listing(ids.deep_view(), users);
    }
    text::join(&put_in_order(ids), "\n")
}

spec fn other_than(id: Seq<char>) -> spec_fn(Seq<char>) -> bool {
    |x: Seq<char>| x != id
}

/// The list without one of its users.
pub fn remove_allowed_requester(existing: &str, user_id: &str) -> (list: String)
    ensures
        list@ == list_of(without_user(users_in(existing@), user_id@)),
{
    let ids = allowed_requester_ids(existing);
    let id = match normalize_discord_user_id(user_id) {
        Some(id) => id,
        None => {
            return text::join(&ids, "\n");
        },
    };
    let ghost all = ids.deep_view();
    let ghost pred = other_than(id@);
    let ghost users = without_user(users_in(existing@), user_id@);
    let mut kept: Vec<String> = Vec::new();
    let mut i: usize = 0;
    proof {
        reveal(Seq::filter);
        assert(kept.deep_view() =~= all.take(0).filter(pred));
    }
    while i < ids.len()
        invariant
            i <= ids@.len(),
            all == ids.deep_view(),
            pred == other_than(id@),
            kept.deep_view() == all.take(i as int).filter(pred),
        decreases ids@.len() - i,
    {
        let ghost before = kept.deep_view();
        assert(all[i as int] == ids@[i as int]@);
        proof {
            all.take(i as int).lemma_filter_push(all[i as int], pred);
            assert(all.take(i as int).push(all[i as int]) == all.take(i + 1));
        }
        if !text::same_text(ids[i].as_str(), id.as_str()) {
            kept.push(ids[i].clone());
            assert(kept.deep_view() == before.push(all[i as int]));
        }
        i = i + 1;
    }
    proof {
        assert(all.take(i as int) == all);
        lemma_filter_of_listing(all, users_in(existing@), id@);
        listing_is_unique(kept.deep_view(), users);
    }
    text::join(&kept, "\n")
}

proof fn lemma_filter_no_duplicates<T>(s: Seq<T>, pred: spec_fn(T) -> bool)
    requires
        s.no_duplicates(),
    ensures
        s.filter(pred).no_duplicates(),
    decreases s.len(),
{
    reveal(Seq::filter);
    if s.len() > 0 {
        lemma_filter_no_duplicates(s.drop_last(), pred);
        let shorter = s.drop_last().filter(pred);
        assert forall|i: int| 0 <= i < shorter.len() implies shorter[i] != s.last() by {
            let k = seqs::filtered_was_there(s.drop_last(), pred, i);
            assert(s[k] == shorter[i]);
        }
    }
}

proof fn lemma_filter_of_listing(ids: Seq<Seq<char>>, users: Set<Seq<char>>, id: Seq<char>)
    requires
        is_listing(ids, users),
    ensures
        is_listing(ids.filter(other_than(id)), users.remove(id)),
{
    let pred = other_than(id);
    let kept = ids.filter(pred);
    order::filter_keeps_order(ids, pred);
    lemma_filter_no_duplicates(ids, pred);
    assert forall|x: Seq<char>| #[trigger] kept.contains(x) <==> users.remove(id).contains(x) by {
        if kept.contains(x) {
            let i = choose|i: int| 0 <= i < kept.len() && kept[i] == x;
            let k = seqs::filtered_was_there(ids, pred, i);
            assert(ids.contains(x));
        }
        if users.remove(id).contains(x) {
            assert(ids.contains(x));
            let k = choose|k: int| 0 <= k < ids.len() && ids[k] == x;
            let i = seqs::passing_is_kept(ids, pred, k);
        }
    }
}

/// The number of a user names that user.
pub proof fn user_id_names_itself(id: Seq<char>)
    requires
        is_user_id(id),
    ensures
        user_id_of(id) == Some(id),
{
    reveal_strlit("<@");
    assert(text::is_digit(id[0]) && text::is_digit(id[id.len() - 1]));
    text::trimmed_of_tight(id);
    if text::begins_with(id, "<@"@) {
        assert(id.subrange(0, 2)[0] == "<@"@[0]);
        assert(false);
    }
}

proof fn lemma_id_is_one_piece(id: Seq<char>)
    requires
        is_user_id(id),
    ensures
        text::pieces(id, USER_SEPARATORS@) == seq![id],
{
    reveal_strlit(",; \t\n\u{c}\r");
    assert forall|i: int| 0 <= i < id.len() implies !USER_SEPARATORS@.contains(#[trigger] id[i]) by {
        assert(text::is_digit(id[i]));
    }
    text::pieces_of_one(id, USER_SEPARATORS@);
}

proof fn lemma_pieces_of_joined_ids(ids: Seq<Seq<char>>)
    requires
        ids.len() > 0,
        forall|i: int| 0 <= i < ids.len() ==> is_user_id(#[trigger] ids[i]),
    ensures
        text::pieces(text::joined(ids, "\n"@), USER_SEPARATORS@) == ids,
    decreases ids.len(),
{
    reveal_strlit(",; \t\n\u{c}\r");
    reveal_strlit("\n");
    let last = ids.last();
    assert(is_user_id(ids[ids.len() - 1]));
    lemma_id_is_one_piece(last);
    if ids.len() == 1 {
        assert(ids =~= seq![last]);
    } else {
        let shorter = ids.drop_last();
        assert forall|i: int| 0 <= i < shorter.len() implies is_user_id(#[trigger] shorter[i]) by {
            assert(shorter[i] == ids[i]);
        }
        lemma_pieces_of_joined_ids(shorter);
        let front = text::joined(shorter, "\n"@);
        assert(USER_SEPARATORS@[4] == '\n');
        text::pieces_around(front, '\n', last, USER_SEPARATORS@);
        assert(front + "\n"@ + last =~= front.push('\n') + last);
        assert(shorter + seq![last] =~= ids);
    }
}

proof fn lemma_enumerate(users: Set<Seq<char>>) -> (ids: Seq<Seq<char>>)
    requires
        users.finite(),
    ensures
        ids.no_duplicates(),
        forall|id: Seq<char>| #[trigger] ids.contains(id) <==> users.contains(id),
    decreases users.len(),
{
    if users.len() == 0 {
        assert(users =~= Set::empty());
        Seq::empty()
    } else {
        let one = users.choose();
        let others = lemma_enumerate(users.remove(one));
        let ids = others.push(one);
        assert forall|id: Seq<char>| #[trigger] ids.contains(id) <==> users.contains(id) by {
            if others.contains(id) {
                let k = choose|k: int| 0 <= k < others.len() && others[k] == id;
                assert(ids[k] == id);
            }
            if id == one {
                assert(ids[others.len() as int] == id);
            }
            if users.contains(id) && id != one {
                assert(others.contains(id));
            }
        }
        assert(!others.contains(one));
        ids
    }
}

/// Every finite set of users has a listing.
pub proof fn listing_exists(users: Set<Seq<char>>)
    requires
        users.finite(),
    ensures
        is_listing(listing(users), users),
{
    let ids = lemma_enumerate(users);
    lemma_ordered_is_listing(ids, users);
}

/// A list names finitely many users, each by a proper number.
pub proof fn users_in_list_are_users(list: Seq<char>)
    ensures
        users_in(list).finite(),
        forall|id: Seq<char>| #[trigger] users_in(list).contains(id) ==> is_user_id(id),
{
    let parts = text::pieces(list, USER_SEPARATORS@);
    let named = parts.map_values(
        |part: Seq<char>|
            match user_id_of(part) {
                Some(id) => id,
                None => Seq::empty(),
            },
    );
    vstd::seq_lib::seq_to_set_is_finite(named);
    assert(users_in(list).subset_of(named.to_set())) by {
        assert forall|id: Seq<char>| users_in(list).contains(id) implies named.to_set().contains(
            id,
        ) by {
            let k = choose|k: int| 0 <= k < parts.len() && user_id_of(#[trigger] parts[k]) == Some(
                id,
            );
            assert(named[k] == id);
        }
    }
    vstd::set_lib::lemma_set_subset_finite(named.to_set(), users_in(list));
}

/// The list that was written for a set of users names exactly those users.
pub proof fn written_list_reads_back(users: Set<Seq<char>>)
    requires
        users.finite(),
        forall|id: Seq<char>| #[trigger] users.contains(id) ==> is_user_id(id),
    ensures
        users_in(list_of(users)) == users,
{
    listing_exists(users);
    let ids = listing(users);
    let list = list_of(users);
    let parts = text::pieces(list, USER_SEPARATORS@);
    assert forall|i: int| 0 <= i < ids.len() implies is_user_id(#[trigger] ids[i]) by {
        assert(ids.contains(ids[i]));
    }
    if ids.len() == 0 {
        assert(parts =~= seq![Seq::empty()]);
        assert(text::trimmed(parts[0]).len() == 0);
        reveal_strlit("<@");
        assert(user_id_of(parts[0]) is None);
    } else {
        lemma_pieces_of_joined_ids(ids);
    }
    assert forall|id: Seq<char>| #[trigger] users_in(list).contains(id) <==> users.contains(id) by {
        if users_in(list).contains(id) {
            let k = choose|k: int| 0 <= k < parts.len() && user_id_of(#[trigger] parts[k]) == Some(
                id,
            );
            user_id_names_itself(ids[k]);
            assert(ids.contains(ids[k]));
        }
        if users.contains(id) {
            assert(ids.contains(id));
            let k = choose|k: int| 0 <= k < ids.len() && ids[k] == id;
            user_id_names_itself(id);
            assert(user_id_of(parts[k]) == Some(id));
        }
    }
    assert(users_in(list) =~= users);
}

/// A user who was added to the list may ask for alarms, and nobody else's right to do so
/// changes.
pub proof fn added_user_is_allowed(
    owner: Seq<char>,
    existing: Seq<char>,
    user: Seq<char>,
    id: Seq<char>,
    other: Seq<char>,
)
    requires
        user_id_of(user) == Some(id),
    ensures
        is_allowed(owner, list_of(with_user(users_in(existing), user)), id),
        other != id ==> is_allowed(owner, list_of(with_user(users_in(existing), user)), other)
            == is_allowed(owner, existing, other),
{
    users_in_list_are_users(existing);
    written_list_reads_back(users_in(existing).insert(id));
}

/// A user who was taken off the list may no longer ask for alarms, unless it is the owner.
/// Nobody else's right to do so changes.
pub proof fn removed_user_is_not_allowed(
    owner: Seq<char>,
    existing: Seq<char>,
    user: Seq<char>,
    id: Seq<char>,
    other: Seq<char>,
)
    requires
        user_id_of(user) == Some(id),
    ensures
        is_allowed(owner, list_of(without_user(users_in(existing), user)), id) == (id == owner),
        other != id ==> is_allowed(owner, list_of(without_user(users_in(existing), user)), other)
            == is_allowed(owner, existing, other),
{
    users_in_list_are_users(existing);
    written_list_reads_back(users_in(existing).remove(id));
}

/// A user is named by the digits of the number, by a mention of it, or by a mention with an
/// exclamation mark; white space around any of these does not matter.
pub proof fn every_way_of_naming_a_user_is_read(id: Seq<char>, around: Seq<char>)
    requires
        id.len() > 0,
        forall|i: int| 0 <= i < id.len() ==> '0' <= #[trigger] id[i] <= '9',
        text::trimmed(around) == id || text::trimmed(around) == seq!['<', '@'] + id + seq!['>']
            || text::trimmed(around) == seq!['<', '@', '!'] + id + seq!['>'],
    ensures
        user_id_of(around) == Some(id),
{
    reveal_strlit("<@");
    let inner = text::trimmed(around);
    assert forall|i: int| 0 <= i < id.len() implies text::is_digit(#[trigger] id[i]) by {}
    assert(is_user_id(id));
    let mark = "<@"@;
    if inner == id {
        assert('0' <= id[0] <= '9');
        if text::begins_with(id, mark) {
            assert(id.subrange(0, 2)[0] == mark[0]);
            assert(false);
        }
    } else if inner == seq!['<', '@'] + id + seq!['>'] {
        assert(inner.subrange(0, 2) =~= mark);
        assert(inner.skip(2) =~= id.push('>'));
        assert(id.push('>').drop_last() =~= id);
        assert('0' <= id[0] <= '9');
    } else {
        let marked = seq!['!'] + id;
        assert(inner.subrange(0, 2) =~= mark);
        assert(inner.skip(2) =~= marked.push('>'));
        assert(marked.push('>').drop_last() =~= marked);
        assert(marked.skip(1) =~= id);
    }
}

/// What is read as the number of a user is made of decimal digits, all of which stand in the text
/// side by side.
pub proof fn what_names_a_user_holds_the_number(value: Seq<char>, id: Seq<char>, i: int)
    requires
        user_id_of(value) == Some(id),
    ensures
        id.len() > 0,
        0 <= i < id.len() ==> '0' <= id[i] <= '9',
        exists|from: int|
            0 <= from && from + id.len() <= text::trimmed(value).len()
                && #[trigger] text::trimmed(value).subrange(from, from + id.len()) == id,
{
    reveal_strlit("<@");
    let inner = text::trimmed(value);
    if 0 <= i < id.len() {
        assert(text::is_digit(id[i]));
    }
    let body = mention_body(inner);
    let start: int = if body == inner {
        0
    } else {
        2
    };
    assert(inner.subrange(start, start + body.len()) =~= body);
    let from: int = start + body.len() - id.len();
    assert(inner.subrange(from, from + id.len()) =~= id);
}

/// Whoever is named in a list, between two separators or at either end of it, may ask for alarms.
/// The separators are the comma, the semicolon, the blank, the tab and the ends of lines.
pub proof fn everybody_on_the_list_may_ask(
    owner: Seq<char>,
    before: Seq<char>,
    entry: Seq<char>,
    after: Seq<char>,
    c: char,
    d: char,
    id: Seq<char>,
)
    requires
        c == ',' || c == ';' || c == ' ' || c == '\t' || c == '\n' || c == '\r' || c == '\u{c}',
        d == ',' || d == ';' || d == ' ' || d == '\t' || d == '\n' || d == '\r' || d == '\u{c}',
        user_id_of(entry) == Some(id),
        forall|i: int|
            0 <= i < entry.len() ==> {
                &&& #[trigger] entry[i] != ','
                &&& entry[i] != ';'
                &&& entry[i] != ' '
                &&& entry[i] != '\t'
                &&& entry[i] != '\n'
                &&& entry[i] != '\r'
                &&& entry[i] != '\u{c}'
            },
    ensures
        is_allowed(owner, before.push(c) + entry.push(d) + after, id),
        is_allowed(owner, before.push(c) + entry, id),
        is_allowed(owner, entry.push(d) + after, id),
        is_allowed(owner, entry, id),
{
    reveal_strlit(",; \t\n\u{c}\r");
    let set = USER_SEPARATORS@;
    assert(set[0] == ',' && set[1] == ';' && set[2] == ' ' && set[3] == '\t' && set[4] == '\n'
        && set[5] == '\u{c}' && set[6] == '\r');
    assert(set.contains(c) && set.contains(d));
    assert forall|i: int| 0 <= i < entry.len() implies !set.contains(#[trigger] entry[i]) by {}
    text::pieces_of_one(entry, set);
    text::pieces_around(entry, d, after, set);
    text::pieces_around(before, c, entry, set);
    text::pieces_around(before, c, entry.push(d) + after, set);
    text::pieces_are_some(before, set);
    let n = text::pieces(before, set).len() as int;
    assert(before.push(c) + entry.push(d) + after =~= before.push(c) + (entry.push(d) + after));
    assert(text::pieces(before.push(c) + (entry.push(d) + after), set)[n] == entry);
    assert(text::pieces(before.push(c) + entry, set)[n] == entry);
    assert(text::pieces(entry.push(d) + after, set)[0] == entry);
    assert(text::pieces(entry, set)[0] == entry);
}

/// Nobody but the owner may ask for alarms where the list is empty, and the owner always may.
pub proof fn only_the_owner_may_ask_without_a_list(owner: Seq<char>, list: Seq<char>, other: Seq<char>)
    ensures
        is_allowed(owner, list, owner),
        is_allowed(owner, Seq::empty(), other) ==> other == owner,
{
    if names_user(Seq::empty(), other) {
        reveal_strlit("<@");
        let parts = text::pieces(Seq::empty(), USER_SEPARATORS@);
        let k = choose|k: int|
            0 <= k < parts.len() && user_id_of(#[trigger] parts[k]) == Some(other);
        assert(text::trimmed(parts[k]).len() == 0);
    }
}

} // verus!
