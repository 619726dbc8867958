//! Where a rip's result is filed below the output root, and which file of a
//! staging directory is the result.
use super::makemkv_core::{Rip, RipModel, RipType};
use crate::decimal::{decimal_digits, push_decimal};
use crate::text::{
    chars_of, comes_before, precedes, precedes_carries_over, push_text, text_of, texts,
};
use vstd::prelude::*;

verus! {

/// The extension of the tool's container format, with its dot.
pub open spec fn media_suffix() -> Seq<char> {
    ".mkv"@
}

/// `rel` below the directory `root`. An empty root leaves `rel` as it is, and
/// a root that ends in a separator gets no second one.
pub open spec fn join_path(root: Seq<char>, rel: Seq<char>) -> Seq<char> {
    if root.len() == 0 {
        rel
    } else if root.last() == '/' {
        root + rel
    } else {
        root + seq!['/'] + rel
    }
}

/// The directory of a season of a show, below the output root.
pub open spec fn season_path(title: Seq<char>, season: u8) -> Seq<char> {
    "shows/"@ + title + "/Season "@ + decimal_digits(season as nat)
}

/// The directory that holds the result of `rip`, below the output root.
pub open spec fn title_dir(rip: RipModel) -> Seq<char> {
    match rip.rip_type {
        RipType::Movie => "movies/"@ + rip.title,
        RipType::Show { season, episode } => season_path(rip.title, season),
    }
}

/// The name of the file that holds the result of `rip`.
pub open spec fn file_name(rip: RipModel) -> Seq<char> {
    match rip.rip_type {
        RipType::Movie => rip.title + media_suffix(),
        RipType::Show { season, episode } => "Episode "@ + decimal_digits(episode as nat)
            + media_suffix(),
    }
}

/// The directory that holds the result of `rip` under `root`.
pub open spec fn destination_dir(root: Seq<char>, rip: RipModel) -> Seq<char> {
    join_path(root, title_dir(rip))
}

/// The file that holds the result of `rip` under `root`.
pub open spec fn destination_path(root: Seq<char>, rip: RipModel) -> Seq<char> {
    destination_dir(root, rip) + seq!['/'] + file_name(rip)
}

/// Below a root that is not empty and does not end in a separator, a movie
/// is filed in a directory of its title below `movies`, under its title;
/// an episode is filed in the directory of its season below the directory of
/// its show below `shows`, under its number.
pub proof fn results_are_filed_by_title(root: Seq<char>, rip: RipModel)
    requires
        root.len() > 0,
        root.last() != '/',
    ensures
        rip.rip_type is Movie ==> destination_path(root, rip) == root + seq!['/'] + ("movies/"@
            + rip.title) + seq!['/'] + (rip.title + ".mkv"@),
        rip.rip_type matches RipType::Show { season, episode } ==> destination_path(root, rip)
            == root + seq!['/'] + ("shows/"@ + rip.title + "/Season "@ + decimal_digits(
            season as nat,
        )) + seq!['/'] + ("Episode "@ + decimal_digits(episode as nat) + ".mkv"@),
{
}

fn push_joined(out: &mut Vec<char>, root: &str)
    ensures
        forall|rel: Seq<char>| #[trigger] join_path(root@, rel) == final(out)@.skip(old(out)@.len() as int) + rel,
        final(out)@.take(old(out)@.len() as int) == old(out)@,
        final(out)@.len() >= old(out)@.len(),
{
    let ghost start = out@;
    let r = chars_of(root);
    push_text(out, root);
    assert(out@.skip(start.len() as int) == root@);
    assert(out@.take(start.len() as int) == start);
    if r.len() > 0 && r[r.len() - 1] != '/' {
        out.push('/');
        assert(out@.skip(start.len() as int) == root@ + seq!['/']);
        assert(out@.take(start.len() as int) == start);
    }
    assert forall|rel: Seq<char>| #[trigger] join_path(root@, rel) == out@.skip(start.len() as int) + rel by {
        if root@.len() == 0 {
            assert(out@.skip(start.len() as int) + rel == rel);
        }
    }
}

fn push_season_path(out: &mut Vec<char>, title: &str, season: u8)
    ensures
        final(out)@ == old(out)@ + season_path(title@, season),
{
    let ghost start = out@;
    push_text(out, "shows/");
    push_text(out, title);
    push_text(out, "/Season ");
    push_decimal(out, season as u64);
    assert(out@ == start + season_path(title@, season));
}

fn push_title_dir(out: &mut Vec<char>, rip: &Rip)
    ensures
        final(out)@ == old(out)@ + title_dir(rip@),
{
    let ghost start = out@;
    match rip.rip_type {
        RipType::Movie => {
            push_text(out, "movies/");
            push_text(out, rip.title.as_str());
            assert(out@ == start + title_dir(rip@));
        },
        RipType::Show { season, episode: _ } => {
            push_season_path(out, rip.title.as_str(), season);
        },
    }
}

fn push_file_name(out: &mut Vec<char>, rip: &Rip)
    ensures
        final(out)@ == old(out)@ + file_name(rip@),
{
    let ghost start = out@;
    match rip.rip_type {
        RipType::Movie => {
            push_text(out, rip.title.as_str());
        },
        RipType::Show { season: _, episode } => {
            push_text(out, "Episode ");
            push_decimal(out, episode as u64);
        },
    }
    push_text(out, ".mkv");
    assert(out@ == start + file_name(rip@));
}

/// The directory of season `season` of the show `title` under `root`.
pub fn season_dir(root: &str, title: &str, season: u8) -> (r: String)
    ensures
        r@ == join_path(root@, season_path(title@, season)),
{
    let mut out: Vec<char> = Vec::new();
    push_joined(&mut out, root);
    assert(out@.skip(0) == out@);
    push_season_path(&mut out, title, season);
    text_of(&out)
}

/// The directory that holds the result of `rip` under `root`.
pub fn destination_dir_of(root: &str, rip: &Rip) -> (r: String)
    ensures
        r@ == destination_dir(root@, rip@),
{
    let mut out: Vec<char> = Vec::new();
    push_joined(&mut out, root);
    assert(out@.skip(0) == out@);
    push_title_dir(&mut out, rip);
    text_of(&out)
}

/// The file that holds the result of `rip` under `root`.
pub fn destination_path_of(root: &str, rip: &Rip) -> (r: String)
    ensures
        r@ == destination_path(root@, rip@),
{
    let mut out: Vec<char> = Vec::new();
    push_joined(&mut out, root);
    assert(out@.skip(0) == out@);
    push_title_dir(&mut out, rip);
    out.push('/');
    push_file_name(&mut out, rip);
    text_of(&out)
}

/// The file `name` in the directory `dir`.
pub fn path_in(dir: &str, name: &str) -> (r: String)
    ensures
        r@ == join_path(dir@, name@),
{
    let mut out: Vec<char> = Vec::new();
    push_joined(&mut out, dir);
    assert(out@.skip(0) == out@);
    push_text(&mut out, name);
    text_of(&out)
}

/// Whether a file of this name is in the tool's container format: the name
/// ends in the media suffix, and something stands before it.
pub open spec fn is_media_file(name: Seq<char>) -> bool {
    name.len() > media_suffix().len() && name.skip(name.len() - media_suffix().len())
        == media_suffix()
}

/// Whether a file of this name is in the tool's container format.
pub fn names_media_file(name: &Vec<char>) -> (r: bool)
    ensures
        r == is_media_file(name@),
{
    proof {
        reveal_strlit(".mkv");
    }
    let n: usize = name.len();
    let r = n > 4 && name[n - 4] == '.' && name[n - 3] == 'm' && name[n - 2] == 'k' && name[n - 1]
        == 'v';
    proof {
        if n > 4 {
            let tail = name@.skip(n - 4);
            assert(tail.len() == 4);
            assert(tail[0] == name@[n - 4]);
            assert(tail[1] == name@[n - 3]);
            assert(tail[2] == name@[n - 2]);
            assert(tail[3] == name@[n - 1]);
            if r {
                assert(tail =~= ".mkv"@);
            }
        }
    }
    r
}

/// The media file among `names` that comes first in the order of a
/// dictionary; none where no name is that of a media file.
pub open spec fn first_artifact(names: Seq<Seq<char>>) -> Option<Seq<char>>
    decreases names.len(),
{
    if names.len() == 0 {
        None
    } else {
        let name = names.last();
        match first_artifact(names.drop_last()) {
            None => if is_media_file(name) {
                Some(name)
            } else {
                None
            },
            Some(best) => if is_media_file(name) && precedes(name, best) {
                Some(name)
            } else {
                Some(best)
            },
        }
    }
}

/// What `first_artifact` picks is one of the names, is a media file, and no
/// media file among the names comes before it; it picks nothing only where
/// there is no media file.
pub proof fn first_artifact_is_least(names: Seq<Seq<char>>)
    ensures
        match first_artifact(names) {
            None => forall|i: int| 0 <= i < names.len() ==> !is_media_file(#[trigger] names[i]),
            Some(best) => names.contains(best) && is_media_file(best) && forall|i: int|
                0 <= i < names.len() && is_media_file(#[trigger] names[i]) ==> !precedes(
                    names[i],
                    best,
                ),
        },
    decreases names.len(),
{
    if names.len() > 0 {
        let before = names.drop_last();
        let name = names.last();
        first_artifact_is_least(before);
        assert forall|i: int| 0 <= i < before.len() implies before[i] == names[i] by {}
        match first_artifact(before) {
            None => {
                if is_media_file(name) {
                    assert(names[names.len() - 1] == name);
                    crate::text::precedes_is_one_way(name, name);
                    assert forall|i: int|
                        0 <= i < names.len() && is_media_file(#[trigger] names[i]) implies !precedes(
                        names[i],
                        name,
                    ) by {
                        if i < before.len() {
                            assert(before[i] == names[i]);
                        }
                    }
                } else {
                    assert forall|i: int| 0 <= i < names.len() implies !is_media_file(
                        #[trigger] names[i],
                    ) by {
                        if i < before.len() {
                            assert(before[i] == names[i]);
                        }
                    }
                }
            },
            Some(best) => {
                let k = choose|k: int| 0 <= k < before.len() && before[k] == best;
                assert(names[k] == best);
                if is_media_file(name) && precedes(name, best) {
                    assert(names[names.len() - 1] == name);
                    crate::text::precedes_is_one_way(name, name);
                    assert forall|i: int|
                        0 <= i < names.len() && is_media_file(#[trigger] names[i]) implies !precedes(
                        names[i],
                        name,
                    ) by {
                        if i < before.len() {
                            assert(before[i] == names[i]);
                            if precedes(names[i], name) {
                                precedes_carries_over(names[i], name, best);
                            }
                        }
                    }
                } else {
                    assert forall|i: int|
                        0 <= i < names.len() && is_media_file(#[trigger] names[i]) implies !precedes(
                        names[i],
                        best,
                    ) by {
                        if i < before.len() {
                            assert(before[i] == names[i]);
                        }
                    }
                }
            },
        }
    }
}

/// The place in `files` of the media file that comes first in the order of a
/// dictionary.
pub fn select_artifact(files: &Vec<String>) -> (r: Option<usize>)
    ensures
        match first_artifact(texts(files@)) {
            None => r is None,
            Some(best) => r is Some && r->Some_0 < files.len() && files[r->Some_0 as int]@ == best,
        },
{
    let mut best: Option<usize> = None;
    let mut best_name: Vec<char> = Vec::new();
    let mut i: usize = 0;
    let ghost names = texts(files@);
    assert(names.take(0).len() == 0);
    while i < files.len()
        invariant
            i <= files.len(),
            names == texts(files@),
            match first_artifact(names.take(i as int)) {
                None => best is None,
                Some(name) => best is Some && best->Some_0 < files.len() && files[best->Some_0 as int]@
                    == name && best_name@ == name,
            },
        decreases files.len() - i,
    {
        let name = chars_of(files[i].as_str());
        assert(names.take(i + 1).drop_last() == names.take(i as int));
        assert(names.take(i + 1).last() == name@);
        if names_media_file(&name) {
            let better = match best {
                None => true,
                Some(_) => comes_before(&name, &best_name),
            };
            if better {
                best = Some(i);
                best_name = name;
            }
        }
        i += 1;
    }
    assert(names.take(i as int) == names);
    best
}

} // verus!
