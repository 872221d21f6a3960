//! What holds of every path.

use vstd::prelude::*;

use crate::path::components;
use crate::path::counted;
use crate::path::dot;
use crate::path::file_name_of;
use crate::path::has_parent;
use crate::path::is_parent_len;
use crate::path::join_adds_one_component;
use crate::path::joined;
use crate::path::parent_exists;
use crate::path::parent_of;
use crate::path::pieces;
use crate::path::root_part;
use crate::path::slash;
use crate::path::target_name;
use crate::path::FilePath;
use crate::path::DOT;
use crate::path::SLASH;
use crate::scan_laws::counted_are_pieces;
use crate::scan_laws::no_slash_in_pieces;

verus! {

/// Whether some bytes are a name: not empty and without a slash.
pub open spec fn is_name(name: Seq<u8>) -> bool {
    name.len() > 0 && forall|k: int| 0 <= k < name.len() ==> name[k] != SLASH
}

/// The empty path has no components, and the root directory is its own one.
pub proof fn where_paths_begin()
    ensures
        components(Seq::empty()) == Seq::<Seq<u8>>::empty(),
        components(seq![47u8]) == seq![seq![47u8]],
{
    reveal_with_fuel(counted, 4);
    reveal_with_fuel(pieces, 3);
    let empty = Seq::<u8>::empty();
    let none = Seq::<Seq<u8>>::empty();
    assert(pieces(empty).drop_last() =~= none);
    assert(components(empty) =~= none);
    let root = seq![47u8];
    assert(root.drop_last() =~= empty);
    assert(pieces(root) =~= seq![empty, empty]);
    assert(pieces(root).drop_last() =~= seq![empty]);
    assert(pieces(root).drop_last().drop_last() =~= none);
    assert(counted(pieces(root)) =~= none);
    assert(components(root) =~= seq![seq![47u8]]);
}

/// A slash at the end of a path makes no difference to what it names.
pub proof fn a_final_slash_makes_no_difference(p: Seq<u8>)
    requires
        p.len() > 0,
    ensures
        components(p.push(47u8)) == components(p),
{
    let longer = p.push(47u8);
    assert(longer.drop_last() =~= p);
    assert(longer[0] == p[0]);
    assert(pieces(longer).drop_last() =~= pieces(p));
    assert(components(longer) =~= components(p));
}

/// The name `.` under a directory names the directory itself; alone it is a component.
pub proof fn a_dot_names_where_it_stands(p: Seq<u8>)
    ensures
        p.len() > 0 ==> components(joined(p, seq![46u8])) == components(p),
        components(seq![46u8]) == seq![seq![46u8]],
{
    let here = seq![46u8];
    let empty = Seq::<u8>::empty();
    let none = Seq::<Seq<u8>>::empty();
    reveal_with_fuel(pieces, 2);
    reveal_with_fuel(counted, 2);
    assert(here =~= dot());
    assert(here.drop_last() =~= empty);
    assert(empty.push(46u8) =~= here);
    assert(pieces(here) =~= seq![here]);
    assert(pieces(here).drop_last() =~= none);
    assert(components(here) =~= seq![here]);
    if p.len() > 0 {
        let base = if p.last() == SLASH {
            p
        } else {
            p.push(SLASH)
        };
        let all = joined(p, here);
        assert(all =~= base.push(46u8));
        assert(all.drop_last() =~= base);
        assert(base.last() == SLASH);
        assert(pieces(base).last() == empty);
        assert(pieces(all).drop_last() =~= pieces(base).drop_last());
        assert(pieces(all).last() =~= here);
        assert(base.drop_last().len() < base.len());
        assert(pieces(base).len() >= 2) by {
            assert(pieces(base.drop_last()).len() >= 1);
        }
        assert(counted(pieces(all)) =~= counted(pieces(base)));
        assert(all[0] == p[0] && base[0] == p[0]);
        assert(components(all) =~= components(base));
        if p.last() != SLASH {
            a_final_slash_makes_no_difference(p);
        }
    }
}

/// A directory joined with a name is the directory's text, one slash unless the text is
/// empty or ends with one, and the name.
pub proof fn joining_puts_one_slash_between(p: Seq<u8>, name: Seq<u8>)
    ensures
        p.is_prefix_of(joined(p, name)),
        joined(p, name).skip(joined(p, name).len() - name.len()) == name,
        p.len() == 0 || p.last() == 47 ==> joined(p, name).len() == p.len() + name.len(),
        p.len() > 0 && p.last() != 47 ==> joined(p, name).len() == p.len() + 1 + name.len()
            && joined(p, name)[p.len() as int] == 47,
{
    let all = joined(p, name);
    assert(all.subrange(0, p.len() as int) =~= p);
    assert(all.skip(all.len() - name.len()) =~= name);
}

/// The parent of a name in a directory is the directory, and the file name is that
/// name, unless it is `..`.
pub proof fn a_name_lies_in_its_directory(p: Seq<u8>, name: Seq<u8>)
    requires
        is_name(name),
        name != seq![46u8],
    ensures
        components(joined(p, name)) == components(p).push(name),
        has_parent(joined(p, name)),
        parent_of(joined(p, name)) matches Some(up) && components(up) == components(p),
        file_name_of(joined(p, name)) == (if name == seq![46u8, 46u8] {
            None
        } else {
            Some(name)
        }),
{
    assert(seq![46u8] =~= dot());
    assert(seq![46u8, 46u8] =~= seq![DOT, DOT]);
    join_adds_one_component(p, name);
    let all = joined(p, name);
    assert(components(all).last() == name);
    assert(name != slash()) by {
        assert(slash()[0] == SLASH);
    }
    assert(components(all).drop_last() =~= components(p));
    parent_exists(all);
}

/// The root and the empty path have no parent, and every other path has one.
pub proof fn all_but_the_root_have_a_parent(p: Seq<u8>)
    ensures
        has_parent(p) <==> components(p).len() > 0 && components(p) != seq![seq![47u8]],
{
    let all = components(p);
    assert(slash() =~= seq![47u8]);
    if all.len() > 0 && all.last() == slash() {
        let base = root_part(p).len() as int;
        if all.len() > base {
            let i = all.len() - 1 - base;
            assert(all.last() == counted(pieces(p))[i]);
            counted_are_pieces(pieces(p), i);
            let k = choose|k: int| 0 <= k < pieces(p).len() && pieces(p)[k] == all.last();
            no_slash_in_pieces(p, k);
            assert(slash()[0] == SLASH);
            assert(pieces(p)[k].contains(SLASH));
        }
        assert(all =~= seq![seq![47u8]]);
    }
    if all == seq![seq![47u8]] {
        assert(all.last() == slash());
    }
}

/// The parent of a path is a beginning of its text that names all but the final
/// component, and no shorter beginning does.
pub proof fn the_parent_is_the_shortest_beginning(path: FilePath, parent: Option<FilePath>)
    requires
        call_ensures(FilePath::parent, (&path,), parent),
    ensures
        parent is Some <==> components(path@).len() > 0 && components(path@) != seq![seq![47u8]],
        parent matches Some(up) ==> {
            &&& up@.is_prefix_of(path@)
            &&& components(up@) == components(path@).drop_last()
            &&& forall|e: int|
                0 <= e < up@.len() ==> components(#[trigger] path@.take(e)) != components(
                    path@,
                ).drop_last()
        },
{
    all_but_the_root_have_a_parent(path@);
    if has_parent(path@) {
        parent_exists(path@);
        let len = choose|len: int| is_parent_len(path@, len);
        assert(path@.take(len) =~= path@.subrange(0, len));
    }
}

/// Under every directory `target` is that directory's path, a slash where one is
/// missing, and the six letters of the name.
pub proof fn the_target_of_a_directory(dir: FilePath, target: FilePath)
    requires
        call_ensures(FilePath::join_target, (&dir,), target),
    ensures
        dir@.is_prefix_of(target@),
        target@.skip(target@.len() - 6) == seq![116u8, 97, 114, 103, 101, 116],
        components(target@) == components(dir@).push(seq![116u8, 97, 114, 103, 101, 116]),
        target@.len() == dir@.len() + 6 + (if dir@.len() == 0 || dir@.last() == 47 {
            0int
        } else {
            1
        }),
{
    reveal_strlit("target");
    let name = seq![116u8, 97, 114, 103, 101, 116];
    assert(target_name() =~= name);
    joining_puts_one_slash_between(dir@, name);
    assert(is_name(name));
    assert(seq![46u8].len() == 1);
    a_name_lies_in_its_directory(dir@, name);
}

/// The file name of every path is its final component, unless that is the root, `.` or
/// `..`.
pub proof fn the_file_name_is_the_final_component(path: FilePath, name: Option<Vec<u8>>)
    requires
        call_ensures(FilePath::file_name, (&path,), name),
    ensures
        name is None <==> {
            ||| components(path@).len() == 0
            ||| components(path@).last() == seq![47u8]
            ||| components(path@).last() == seq![46u8]
            ||| components(path@).last() == seq![46u8, 46u8]
        },
        name matches Some(bytes) ==> bytes@ == components(path@).last(),
{
    assert(slash() =~= seq![47u8]);
    assert(dot() =~= seq![46u8]);
    assert(seq![DOT, DOT] =~= seq![46u8, 46u8]);
}

/// A path is named `target` just when its final component is those six letters.
pub proof fn the_name_target_is_told(path: FilePath, named: bool)
    requires
        call_ensures(FilePath::is_named_target, (&path,), named),
    ensures
        named <==> components(path@).len() > 0 && components(path@).last() == seq![
            116u8,
            97,
            114,
            103,
            101,
            116,
        ],
{
    reveal_strlit("target");
    assert(target_name() =~= seq![116u8, 97, 114, 103, 101, 116]);
    assert(slash().len() == 1 && dot().len() == 1 && seq![DOT, DOT].len() == 2);
}

} // verus!
