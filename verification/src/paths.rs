//! Paths as bytes, taken apart at the slashes as Unix systems do, and which of them belong to the
//! message store.

use crate::text;
use vstd::prelude::*;
use vstd::string::*;

verus! {

broadcast use vstd::string::group_string_axioms;

/// The byte of a slash, which separates the names in a path.
pub const SLASH: u8 = 47;

/// The byte of a dot.
pub const DOT: u8 = 46;

/// What stands between the slashes of a path, empty pieces too.
pub open spec fn pieces_of(path: Seq<u8>) -> Seq<Seq<u8>>
    decreases path.len(),
{
    let end = text::position(path, SLASH);
    if 0 <= end < path.len() {
        seq![path.take(end)] + pieces_of(path.skip(end + 1))
    } else {
        seq![path]
    }
}

/// Whether a piece of a path names something: empty pieces and single dots do not.
pub open spec fn is_name(piece: Seq<u8>) -> bool {
    piece.len() > 0 && piece != seq![DOT]
}

/// The last name in a path. A path that ends in two dots, and one without a name, has none.
pub open spec fn file_name_of(path: Seq<u8>) -> Option<Seq<u8>> {
    let names = pieces_of(path).filter(|piece: Seq<u8>| is_name(piece));
    if names.len() == 0 || names.last() == seq![DOT, DOT] {
        None
    } else {
        Some(names.last())
    }
}

/// The index of the last dot in a name, or -1 if there is none.
pub open spec fn last_dot(name: Seq<u8>) -> int
    decreases name.len(),
{
    if name.len() == 0 || name.last() == DOT {
        name.len() - 1
    } else {
        last_dot(name.drop_last())
    }
}

/// What stands behind the last dot of the last name in a path, if there is a dot other than
/// the one that the name may start with.
pub open spec fn extension_of(path: Seq<u8>) -> Option<Seq<u8>> {
    match file_name_of(path) {
        Some(name) if last_dot(name) > 0 => Some(name.skip(last_dot(name) + 1)),
        _ => None,
    }
}

/// Whether a change of the file at `path` can mean a new message: it is the message database,
/// its log or its index, or a database below a directory of cached nicknames.
pub open spec fn in_message_store(path: Seq<u8>) -> bool {
    ||| file_name_of(path) == Some("chat.db".spec_bytes())
    ||| file_name_of(path) == Some("chat.db-wal".spec_bytes())
    ||| file_name_of(path) == Some("chat.db-shm".spec_bytes())
    ||| pieces_of(path).contains("NickNameCache".spec_bytes()) && extension_of(path) == Some(
        "db".spec_bytes(),
    )
}

/// Whether `path` is the index of the message database, which changes without new messages.
pub open spec fn is_store_index(path: Seq<u8>) -> bool {
    file_name_of(path) == Some("chat.db-shm".spec_bytes())
}

/// A path that is read past as noise belongs to the message store.
pub proof fn noise_is_relevant(path: Seq<u8>)
    requires
        is_store_index(path),
    ensures
        in_message_store(path),
{
}

/// The views of a list of byte strings.
spec fn byte_views(list: Seq<&[u8]>) -> Seq<Seq<u8>> {
    list.map_values(|piece: &[u8]| piece@)
}

/// What stands between the slashes of a path.
fn pieces(path: &[u8]) -> (list: Vec<&[u8]>)
    ensures
        byte_views(list@) == pieces_of(path@),
{
    let len: usize = path.len();
    let mut list: Vec<&[u8]> = Vec::new();
    let mut start: usize = 0;
    proof {
        assert(path@.skip(0) =~= path@);
        assert(byte_views(list@) + pieces_of(path@) =~= pieces_of(path@));
    }
    loop
        invariant
            len == path.len(),
            start <= len,
            byte_views(list@) + pieces_of(path@.skip(start as int)) == pieces_of(path@),
        decreases len - start,
    {
        let ghost rest = path@.skip(start as int);
        let ghost before = list@;
        let mut end: usize = start;
        while end < len && path[end] != SLASH
            invariant
                len == path.len(),
                start <= end <= len,
                rest == path@.skip(start as int),
                forall|i: int| 0 <= i < end - start ==> rest[i] != SLASH,
            decreases len - end,
        {
            end += 1;
        }
        let piece: &[u8] = vstd::slice::slice_subrange(path, start, end);
        list.push(piece);
        proof {
            text::lemma_position_is(rest, SLASH, end - start);
            assert(piece@ =~= rest.take(end - start));
            assert(byte_views(list@) =~= byte_views(before).push(piece@));
        }
        if end == len {
            proof {
                assert(rest.take(end - start) =~= rest);
                assert(byte_views(list@) =~= byte_views(before) + seq![rest]);
            }
            return list;
        }
        proof {
            assert(rest.skip(end - start + 1) =~= path@.skip(end + 1));
            assert(byte_views(list@) + pieces_of(path@.skip(end + 1)) =~= byte_views(before) + (
            seq![piece@] + pieces_of(rest.skip(end - start + 1))));
        }
        start = end + 1;
    }
}

/// The last name in a path.
fn file_name(path: &[u8]) -> (name: Option<&[u8]>)
    ensures
        name is Some <==> file_name_of(path@) is Some,
        name matches Some(n) ==> file_name_of(path@) == Some(n@),
{
    let list: Vec<&[u8]> = pieces(path);
    let ghost all = byte_views(list@);
    let ghost named = |piece: Seq<u8>| is_name(piece);
    let mut i: usize = list.len();
    proof {
        assert(all.take(i as int) =~= all);
    }
    while i > 0
        invariant
            i <= list.len(),
            all == byte_views(list@),
            all == pieces_of(path@),
            named == (|piece: Seq<u8>| is_name(piece)),
            all.filter(named) == all.take(i as int).filter(named),
        decreases i,
    {
        let piece: &[u8] = list[i - 1];
        proof {
            reveal(Seq::filter);
            assert(all.take(i as int).last() == piece@);
            assert(all.take(i as int).drop_last() =~= all.take(i - 1));
        }
        let single_dot: bool = piece.len() == 1 && piece[0] == DOT;
        proof {
            if single_dot {
                assert(piece@ =~= seq![DOT]);
            }
        }
        if piece.len() > 0 && !single_dot {
            let two_dots: bool = piece.len() == 2 && piece[0] == DOT && piece[1] == DOT;
            proof {
                assert(named(piece@));
                assert(all.take(i as int).filter(named).last() == piece@);
                if two_dots {
                    assert(piece@ =~= seq![DOT, DOT]);
                }
            }
            return if two_dots {
                None
            } else {
                Some(piece)
            };
        }
        assert(!named(piece@));
        i -= 1;
    }
    proof {
        assert(all.take(0) =~= Seq::<Seq<u8>>::empty());
        reveal(Seq::filter);
    }
    None
}

proof fn lemma_last_dot_is(name: Seq<u8>, at: int)
    requires
        -1 <= at < name.len(),
        at >= 0 ==> name[at] == DOT,
        forall|i: int| at < i < name.len() ==> name[i] != DOT,
    ensures
        last_dot(name) == at,
    decreases name.len(),
{
    if name.len() > 0 && name.last() != DOT {
        lemma_last_dot_is(name.drop_last(), at);
    }
}

/// Whether the last name in a path has the extension `ext`.
pub fn has_extension(path: &[u8], ext: &str) -> (yes: bool)
    ensures
        yes == (extension_of(path@) == Some(ext.spec_bytes())),
{
    match file_name(path) {
        None => false,
        Some(name) => {
            let mut behind: usize = name.len();
            while behind > 0 && name[behind - 1] != DOT
                invariant
                    behind <= name.len(),
                    forall|i: int| behind <= i < name.len() ==> name@[i] != DOT,
                decreases behind,
            {
                behind -= 1;
            }
            proof {
                lemma_last_dot_is(name@, behind - 1);
            }
            if behind <= 1 {
                return false;
            }
            let tail: &[u8] = vstd::slice::slice_subrange(name, behind, name.len());
            assert(tail@ =~= name@.skip(behind as int));
            text::same_bytes(tail, ext.as_bytes())
        },
    }
}

/// Whether `name` stands between slashes of a path.
pub fn has_piece(path: &[u8], name: &str) -> (yes: bool)
    ensures
        yes == pieces_of(path@).contains(name.spec_bytes()),
{
    let list: Vec<&[u8]> = pieces(path);
    let ghost all = byte_views(list@);
    let mut i: usize = 0;
    while i < list.len()
        invariant
            i <= list.len(),
            all == byte_views(list@),
            all == pieces_of(path@),
            forall|k: int| 0 <= k < i ==> all[k] != name.spec_bytes(),
        decreases list.len() - i,
    {
        if text::same_bytes(list[i], name.as_bytes()) {
            assert(all[i as int] == name.spec_bytes());
            return true;
        }
        assert(all[i as int] == list@[i as int]@);
        i += 1;
    }
    false
}

/// Whether the last name in a path is `name`.
pub fn is_named(path: &[u8], name: &str) -> (yes: bool)
    ensures
        yes == (file_name_of(path@) == Some(name.spec_bytes())),
{
    match file_name(path) {
        None => false,
        Some(found) => text::same_bytes(found, name.as_bytes()),
    }
}

/// `relative` below the directory `base`: a slash goes between them unless `base` is empty or
/// ends in one.
pub open spec fn path_below(base: Seq<char>, relative: Seq<char>) -> Seq<char> {
    if base.len() == 0 || base.last() == '/' {
        base + relative
    } else {
        base + seq!['/'] + relative
    }
}

/// `relative`, which does not start with a slash, below the directory `base`.
pub fn join_path(base: &str, relative: &str) -> (path: String)
    requires
        relative@.len() > 0,
        relative@[0] != '/',
    ensures
        path@ == path_below(base@, relative@),
{
    let mut path: String = base.to_owned();
    let len: usize = base.unicode_len();
    if len > 0 && base.get_char(len - 1) != '/' {
        proof {
            reveal_strlit("/");
        }
        path.append("/");
        assert(path@ =~= base@ + seq!['/']);
    }
    path.append(relative);
    path
}

/// A path is taken apart at each slash: what stands on its two sides is taken apart for itself,
/// and a path without a slash is one piece.
pub proof fn paths_split_at_slashes(before: Seq<u8>, behind: Seq<u8>)
    ensures
        pieces_of(before + seq![47u8] + behind) == pieces_of(before) + pieces_of(behind),
        !before.contains(47u8) ==> pieces_of(before) == seq![before],
    decreases before.len(),
{
    let whole = before + seq![47u8] + behind;
    text::lemma_position(before, SLASH);
    let end = text::position(before, SLASH);
    if end < before.len() {
        let rest = before.skip(end + 1);
        assert(before.contains(before[end]));
        paths_split_at_slashes(rest, behind);
        assert forall|i: int| 0 <= i < end implies whole[i] != SLASH by {
            assert(whole[i] == before[i]);
        }
        assert(whole[end] == before[end]);
        text::lemma_position_is(whole, SLASH, end);
        assert(whole.take(end) =~= before.take(end));
        assert(whole.skip(end + 1) =~= rest + seq![47u8] + behind);
    } else {
        assert forall|i: int| 0 <= i < before.len() implies whole[i] != SLASH by {
            assert(whole[i] == before[i]);
        }
        assert(whole[before.len() as int] == SLASH);
        text::lemma_position_is(whole, SLASH, before.len() as int);
        assert(whole.take(before.len() as int) =~= before);
        assert(whole.skip(before.len() as int + 1) =~= behind);
    }
    assert(pieces_of(whole) =~= pieces_of(before) + pieces_of(behind));
}

proof fn lemma_names_of_last(dir: Seq<u8>, last: Seq<u8>)
    requires
        !last.contains(47u8),
    ensures
        ({
            let named = |piece: Seq<u8>| is_name(piece);
            let names = pieces_of(dir + seq![47u8] + last).filter(named);
            names == if is_name(last) {
                pieces_of(dir).filter(named).push(last)
            } else {
                pieces_of(dir).filter(named)
            }
        }),
        ({
            let named = |piece: Seq<u8>| is_name(piece);
            pieces_of(last).filter(named) == if is_name(last) {
                seq![last]
            } else {
                Seq::empty()
            }
        }),
{
    let named = |piece: Seq<u8>| is_name(piece);
    paths_split_at_slashes(dir, last);
    paths_split_at_slashes(last, last);
    assert(pieces_of(dir) + seq![last] =~= pieces_of(dir).push(last));
    pieces_of(dir).lemma_filter_push(last, named);
    Seq::<Seq<u8>>::empty().lemma_filter_push(last, named);
    assert(Seq::<Seq<u8>>::empty().push(last) =~= seq![last]);
    reveal(Seq::filter);
}

/// The last name in a path is what stands behind its last slash. Slashes and single dots at the
/// end of a path make no difference to it, and a path that ends in two dots has none.
pub proof fn last_names_stand_behind_the_last_slash(dir: Seq<u8>, name: Seq<u8>)
    requires
        !name.contains(47u8),
        name.len() > 0,
        name != seq![46u8],
        name != seq![46u8, 46u8],
    ensures
        file_name_of(dir + seq![47u8] + name) == Some(name),
        file_name_of(name) == Some(name),
        file_name_of(dir + seq![47u8]) == file_name_of(dir),
        file_name_of(dir + seq![47u8, 46u8]) == file_name_of(dir),
        file_name_of(dir + seq![47u8, 46u8, 46u8]) is None,
        file_name_of(seq![46u8, 46u8]) is None,
        file_name_of(seq![46u8]) is None,
        file_name_of(Seq::empty()) is None,
{
    let none = Seq::<u8>::empty();
    let dot = seq![46u8];
    let dots = seq![46u8, 46u8];
    lemma_names_of_last(dir, name);
    lemma_names_of_last(dir, none);
    lemma_names_of_last(dir, dot);
    assert(!dots.contains(47u8));
    assert(dots.len() == 2 && dot.len() == 1);
    lemma_names_of_last(dir, dots);
    assert(dir + seq![47u8] + none =~= dir + seq![47u8]);
    assert(dir + seq![47u8] + dot =~= dir + seq![47u8, 46u8]);
    assert(dir + seq![47u8] + dots =~= dir + seq![47u8, 46u8, 46u8]);
}

/// The extension of a name is what stands behind its last dot, if there is something before that
/// dot. It is that of every path that ends in the name.
pub proof fn extensions_stand_behind_the_last_dot(dir: Seq<u8>, stem: Seq<u8>, ext: Seq<u8>)
    requires
        !stem.contains(47u8),
        !ext.contains(47u8),
        !ext.contains(46u8),
    ensures
        stem.len() > 0 && stem + seq![46u8] + ext != seq![46u8, 46u8] ==> extension_of(
            dir + seq![47u8] + (stem + seq![46u8] + ext),
        ) == Some(ext),
        ext.len() > 0 ==> extension_of(dir + seq![47u8] + (seq![46u8] + ext)) is None,
        ext.len() > 0 ==> extension_of(dir + seq![47u8] + ext) is None,
{
    let full = stem + seq![46u8] + ext;
    let hidden = seq![46u8] + ext;
    assert forall|i: int| 0 <= i < ext.len() implies ext[i] != 46u8 && ext[i] != 47u8 by {
        assert(ext.contains(ext[i]));
    }
    assert forall|i: int| 0 <= i < stem.len() implies stem[i] != 47u8 by {
        assert(stem.contains(stem[i]));
    }
    if stem.len() > 0 && full != seq![46u8, 46u8] {
        assert(full.len() >= 2);
        lemma_extension_at(dir, full, stem.len() as int);
        assert(full.skip(stem.len() as int + 1) =~= ext);
    }
    if ext.len() > 0 {
        assert(hidden[1] == ext[0]);
        lemma_extension_at(dir, hidden, 0);
        lemma_extension_at(dir, ext, -1);
    }
}

proof fn lemma_extension_at(dir: Seq<u8>, name: Seq<u8>, at: int)
    requires
        forall|i: int| 0 <= i < name.len() ==> name[i] != 47u8,
        name.len() > 0,
        name.len() == 1 ==> name[0] != 46u8,
        name != seq![46u8, 46u8],
        -1 <= at < name.len(),
        at >= 0 ==> name[at] == 46u8,
        forall|i: int| at < i < name.len() ==> name[i] != 46u8,
    ensures
        extension_of(dir + seq![47u8] + name) == if at > 0 {
            Some(name.skip(at + 1))
        } else {
            None
        },
{
    assert(seq![46u8][0] == 46u8);
    last_names_stand_behind_the_last_slash(dir, name);
    lemma_last_dot_is(name, at);
}

proof fn lemma_store_bytes()
    ensures
        "db".spec_bytes() == seq![100u8, 98u8],
        ".db".spec_bytes() == seq![46u8, 100u8, 98u8],
        "NickNameCache".spec_bytes().len() == 13,
        "NickNameCache".spec_bytes()[12] == 101u8,
        !"NickNameCache".spec_bytes().contains(47u8),
{
    reveal_strlit("db");
    reveal_strlit(".db");
    reveal_strlit("NickNameCache");
    assert(is_ascii("db"));
    assert(is_ascii(".db"));
    assert(is_ascii("NickNameCache"));
    assert("db".spec_bytes() =~= seq![100u8, 98u8]);
    assert(".db".spec_bytes() =~= seq![46u8, 100u8, 98u8]);
}

/// The files of the message store, in whatever directory: three by their names, and the databases
/// whose names end in `.db` below a directory of cached nicknames.
pub proof fn the_store_is_known_by_its_names(dir: Seq<u8>, name: Seq<u8>)
    requires
        !name.contains(47u8),
        name.len() > 0,
        name != seq![46u8],
        name != seq![46u8, 46u8],
    ensures
        ({
            let path = dir + seq![47u8] + name;
            let known = name == "chat.db".spec_bytes() || name == "chat.db-wal".spec_bytes() || name
                == "chat.db-shm".spec_bytes();
            let database = name.len() > 3 && name.skip(name.len() - 3) == ".db".spec_bytes();
            &&& in_message_store(path) <==> known || database && pieces_of(dir).contains(
                "NickNameCache".spec_bytes(),
            )
            &&& in_message_store(name) <==> known
            &&& is_store_index(path) <==> name == "chat.db-shm".spec_bytes()
            &&& is_store_index(name) <==> name == "chat.db-shm".spec_bytes()
        }),
{
    let path = dir + seq![47u8] + name;
    let cache = "NickNameCache".spec_bytes();
    let database = name.len() > 3 && name.skip(name.len() - 3) == ".db".spec_bytes();
    lemma_store_bytes();
    last_names_stand_behind_the_last_slash(dir, name);
    paths_split_at_slashes(dir, name);
    paths_split_at_slashes(name, name);
    let n = name.len() as int;
    if database {
        let tail = name.skip(n - 3);
        assert(name[n - 3] == tail[0]);
        assert(name[n - 2] == tail[1]);
        assert(name[n - 1] == tail[2]);
        lemma_last_dot_is(name, n - 3);
        assert(name.skip(n - 2) =~= "db".spec_bytes());
        assert(name != cache);
    } else if extension_of(path) == Some("db".spec_bytes()) {
        let at = last_dot(name);
        lemma_last_dot(name);
        assert(name.skip(at + 1).len() == 2);
        assert(name[n - 2] == name.skip(at + 1)[0]);
        assert(name[n - 1] == name.skip(at + 1)[1]);
        assert(name.skip(n - 3) =~= ".db".spec_bytes());
    }
    assert(extension_of(path) == Some("db".spec_bytes()) <==> database);
    let pieces = pieces_of(path);
    assert(pieces =~= pieces_of(dir).push(name));
    if pieces_of(dir).contains(cache) {
        let i = choose|i: int| 0 <= i < pieces_of(dir).len() && pieces_of(dir)[i] == cache;
        assert(pieces[i] == cache);
    }
    if pieces.contains(cache) && !pieces_of(dir).contains(cache) {
        let i = choose|i: int| 0 <= i < pieces.len() && pieces[i] == cache;
        if i < pieces_of(dir).len() {
            assert(pieces_of(dir)[i] == cache);
        }
    }
    assert(pieces_of(name) == seq![name]);
    if pieces_of(name).contains(cache) {
        assert(name == cache);
        assert(!database);
    }
}

proof fn lemma_last_dot(name: Seq<u8>)
    ensures
        -1 <= last_dot(name) < name.len(),
        last_dot(name) >= 0 ==> name[last_dot(name)] == DOT,
    decreases name.len(),
{
    if name.len() > 0 && name.last() != DOT {
        lemma_last_dot(name.drop_last());
    }
}

/// A path below a directory starts with the directory and ends in what is below it. One slash
/// stands between the two, whether or not the directory is written with one at its end, and none
/// where there is no directory.
pub proof fn one_slash_joins_paths(base: Seq<char>, relative: Seq<char>)
    ensures
        base.len() > 0 && base.last() != '/' ==> path_below(base, relative) == base + seq!['/']
            + relative && path_below(base.push('/'), relative) == path_below(base, relative),
        base.len() > 0 && base.last() == '/' ==> path_below(base, relative) == base + relative,
        base.len() == 0 ==> path_below(base, relative) == relative,
{
    assert(base.push('/') + relative =~= base + seq!['/'] + relative);
    if base.len() == 0 {
        assert(base + relative =~= relative);
    }
}

} // verus!
