//! Decisions of the installer that patches the host program's files.
use vstd::prelude::*;

use crate::text::contains_chars;

verus! {

/// Whether the installer waits for a line before it ends: only on Windows,
/// where its console window would otherwise close at once.
pub fn pause(on_windows: bool) -> (r: bool)
    ensures
        r == on_windows,
{
    on_windows
}

/// The pieces of `s` between occurrences of `sep`: one more than there are
/// separators.
pub open spec fn split_on(s: Seq<char>, sep: char) -> Seq<Seq<char>>
    decreases s.len(),
{
    if s.len() == 0 {
        seq![Seq::empty()]
    } else {
        let pieces = split_on(s.drop_last(), sep);
        if s.last() == sep {
            pieces.push(Seq::empty())
        } else {
            pieces.update(pieces.len() - 1, pieces.last().push(s.last()))
        }
    }
}

proof fn lemma_split_on_not_empty(s: Seq<char>, sep: char)
    ensures
        split_on(s, sep).len() >= 1,
    decreases s.len(),
{
    if s.len() > 0 {
        lemma_split_on_not_empty(s.drop_last(), sep);
    }
}

/// Splits `s` at each `sep`.
pub fn split_chars(s: &Vec<char>, sep: char) -> (r: Vec<Vec<char>>)
    ensures
        r@.map_values(|p: Vec<char>| p@) == split_on(s@, sep),
{
    let mut pieces: Vec<Vec<char>> = Vec::new();
    let mut current: Vec<char> = Vec::new();
    let mut i: usize = 0;
    assert(s@.subrange(0, 0) =~= Seq::<char>::empty());
    assert(pieces@.map_values(|p: Vec<char>| p@).push(current@) =~= split_on(s@.subrange(0, 0), sep));
    while i < s.len()
        invariant
            i <= s@.len(),
            pieces@.map_values(|p: Vec<char>| p@).push(current@) == split_on(s@.subrange(0, i as int), sep),
        decreases s@.len() - i,
    {
        let c = s[i];
        let ghost before = pieces@.map_values(|p: Vec<char>| p@).push(current@);
        proof {
            assert(s@.subrange(0, i + 1).drop_last() =~= s@.subrange(0, i as int));
            assert(s@.subrange(0, i + 1).last() == c);
        }
        if c == sep {
            let mut done: Vec<char> = Vec::new();
            std::mem::swap(&mut done, &mut current);
            pieces.push(done);
            assert(pieces@.map_values(|p: Vec<char>| p@).push(current@) =~= before.push(Seq::empty()));
        } else {
            current.push(c);
            assert(pieces@.map_values(|p: Vec<char>| p@).push(current@)
                =~= before.update(before.len() - 1, before.last().push(c)));
        }
        i = i + 1;
    }
    assert(s@.subrange(0, s@.len() as int) =~= s@);
    pieces.push(current);
    pieces
}

/// A line without the carriage return that may end it.
pub open spec fn strip_cr(line: Seq<char>) -> Seq<char> {
    if line.len() > 0 && line.last() == '\r' {
        line.drop_last()
    } else {
        line
    }
}

/// The lines of a text, as `str::lines` gives them: split at each line
/// feed, without a trailing carriage return, and without the empty piece
/// after a final line feed.
pub open spec fn lines_of(s: Seq<char>) -> Seq<Seq<char>> {
    let pieces = split_on(s, '\n');
    let kept = if pieces.last().len() == 0 { pieces.drop_last() } else { pieces };
    kept.map_values(|l: Seq<char>| strip_cr(l))
}

pub open spec fn quoted_path_key() -> Seq<char> {
    seq!['"', 'p', 'a', 't', 'h', '"']
}

/// The library folder that a line of `libraryfolders.vdf` names, if it
/// names one: a line that holds `"path"` gives its fourth piece between
/// quotes.
pub open spec fn folder_of_line(line: Seq<char>) -> Option<Seq<char>> {
    if crate::text::contains(line, quoted_path_key()) && split_on(line, '"').len() > 3 {
        Some(split_on(line, '"')[3])
    } else {
        None
    }
}

/// The library folders that the lines name, in order.
pub open spec fn folders_of_lines(lines: Seq<Seq<char>>) -> Seq<Seq<char>>
    decreases lines.len(),
{
    if lines.len() == 0 {
        Seq::empty()
    } else {
        let before = folders_of_lines(lines.drop_last());
        match folder_of_line(lines.last()) {
            Some(f) => before.push(f),
            None => before,
        }
    }
}

/// The Steam library folders that the text of `libraryfolders.vdf` names,
/// in order.
pub fn library_folders(vdf: &Vec<char>) -> (r: Vec<Vec<char>>)
    ensures
        r@.map_values(|p: Vec<char>| p@) == folders_of_lines(lines_of(vdf@)),
{
    let mut pieces = split_chars(vdf, '\n');
    let ghost all = pieces@.map_values(|p: Vec<char>| p@);
    proof {
        lemma_split_on_not_empty(vdf@, '\n');
    }
    let last_len = pieces[pieces.len() - 1].len();
    if last_len == 0 {
        pieces.pop();
    }
    let ghost kept = pieces@.map_values(|p: Vec<char>| p@);
    assert(kept =~= (if all.last().len() == 0 { all.drop_last() } else { all }));
    let ghost lines = kept.map_values(|l: Seq<char>| strip_cr(l));
    assert(lines == lines_of(vdf@));
    let key = vec!['"', 'p', 'a', 't', 'h', '"'];
    assert(key@ =~= quoted_path_key());
    let mut out: Vec<Vec<char>> = Vec::new();
    let mut i: usize = 0;
    assert(lines.subrange(0, 0) =~= Seq::<Seq<char>>::empty());
    while i < pieces.len()
        invariant
            i <= pieces@.len(),
            kept == pieces@.map_values(|p: Vec<char>| p@),
            lines == kept.map_values(|l: Seq<char>| strip_cr(l)),
            key@ == quoted_path_key(),
            out@.map_values(|p: Vec<char>| p@) == folders_of_lines(lines.subrange(0, i as int)),
        decreases pieces@.len() - i,
    {
        let piece = &pieces[i];
        let mut line: Vec<char> = Vec::new();
        let mut j: usize = 0;
        let n: usize = if piece.len() > 0 && piece[piece.len() - 1] == '\r' { piece.len() - 1 } else { piece.len() };
        while j < n
            invariant
                n <= piece@.len(),
                j <= n,
                line@ == piece@.subrange(0, j as int),
            decreases n - j,
        {
            line.push(piece[j]);
            j = j + 1;
            assert(line@ =~= piece@.subrange(0, j as int));
        }
        assert(line@ =~= strip_cr(piece@));
        assert(lines[i as int] == line@);
        assert(lines.subrange(0, i + 1).drop_last() =~= lines.subrange(0, i as int));
        let ghost out_before = out@.map_values(|p: Vec<char>| p@);
        if contains_chars(&line, &key) {
            let fields = split_chars(&line, '"');
            if fields.len() > 3 {
                let mut folder: Vec<char> = Vec::new();
                let mut k: usize = 0;
                let field = &fields[3];
                while k < field.len()
                    invariant
                        k <= field@.len(),
                        folder@ == field@.subrange(0, k as int),
                    decreases field@.len() - k,
                {
                    folder.push(field[k]);
                    k = k + 1;
                    assert(folder@ =~= field@.subrange(0, k as int));
                }
                assert(field@.subrange(0, field@.len() as int) =~= field@);
                assert(fields@.map_values(|p: Vec<char>| p@)[3] == field@);
                out.push(folder);
                assert(out@.map_values(|p: Vec<char>| p@) =~= out_before.push(field@));
            }
        }
        i = i + 1;
    }
    assert(lines.subrange(0, pieces@.len() as int) =~= lines);
    out
}

/// Folder names under which a Steam library keeps its applications.
pub open spec fn steamapps_cases() -> Seq<Seq<char>> {
    seq![
        seq!['S', 't', 'e', 'a', 'm', 'A', 'p', 'p', 's'],
        seq!['s', 't', 'e', 'a', 'm', 'a', 'p', 'p', 's'],
    ]
}

/// Folder of the game under a Steam library's applications folder.
pub open spec fn game_folder() -> Seq<Seq<char>> {
    seq![
        seq!['c', 'o', 'm', 'm', 'o', 'n'],
        seq!['R', 'O', 'B', 'O', 'T', 'I', 'C', 'S', ';', 'N', 'O', 'T', 'E', 'S', ' ', 'E', 'L', 'I', 'T', 'E'],
    ]
}

/// `base`, then each part, joined by `sep`.
pub open spec fn join_path(base: Seq<char>, parts: Seq<Seq<char>>, sep: char) -> Seq<char>
    decreases parts.len(),
{
    if parts.len() == 0 {
        base
    } else {
        join_path(base, parts.drop_last(), sep).push(sep) + parts.last()
    }
}

/// Where the game may lie: for each library in order, under each of the
/// two spellings of its applications folder.
pub open spec fn game_path_candidate(libraries: Seq<Seq<char>>, i: int, sep: char) -> Seq<char> {
    join_path(libraries[i / 2], seq![steamapps_cases()[i as int % 2]] + game_folder(), sep)
}

fn push_part(path: &mut Vec<char>, sep: char, part: &Vec<char>)
    ensures
        final(path)@ == old(path)@.push(sep) + part@,
{
    path.push(sep);
    let mut i: usize = 0;
    let ghost start = path@;
    while i < part.len()
        invariant
            i <= part@.len(),
            path@ == start + part@.subrange(0, i as int),
        decreases part@.len() - i,
    {
        path.push(part[i]);
        i = i + 1;
        assert(path@ =~= start + part@.subrange(0, i as int));
    }
    assert(part@.subrange(0, part@.len() as int) =~= part@);
}

/// Every place where the game may lie, in the order in which they are
/// tried: two per library.
pub fn game_path_candidates(libraries: &Vec<Vec<char>>, sep: char) -> (r: Vec<Vec<char>>)
    requires
        libraries@.len() * 2 <= usize::MAX,
    ensures
        r@.len() == libraries@.len() * 2,
        forall|i: int| 0 <= i < r@.len() ==> #[trigger] r@[i]@ == game_path_candidate(libraries@.map_values(|l: Vec<char>| l@), i, sep),
{
    let ghost libs = libraries@.map_values(|l: Vec<char>| l@);
    let cases = vec![vec!['S', 't', 'e', 'a', 'm', 'A', 'p', 'p', 's'], vec!['s', 't', 'e', 'a', 'm', 'a', 'p', 'p', 's']];
    let common = vec!['c', 'o', 'm', 'm', 'o', 'n'];
    let game = vec!['R', 'O', 'B', 'O', 'T', 'I', 'C', 'S', ';', 'N', 'O', 'T', 'E', 'S', ' ', 'E', 'L', 'I', 'T', 'E'];
    assert(cases@[0]@ =~= steamapps_cases()[0]);
    assert(cases@[1]@ =~= steamapps_cases()[1]);
    assert(common@ =~= game_folder()[0]);
    assert(game@ =~= game_folder()[1]);
    let mut out: Vec<Vec<char>> = Vec::new();
    let mut i: usize = 0;
    while i < libraries.len() * 2
        invariant
            libs == libraries@.map_values(|l: Vec<char>| l@),
            libraries@.len() * 2 <= usize::MAX,
            i <= libraries@.len() * 2,
            out@.len() == i,
            cases@.len() == 2,
            cases@[0]@ == steamapps_cases()[0],
            cases@[1]@ == steamapps_cases()[1],
            common@ == game_folder()[0],
            game@ == game_folder()[1],
            forall|k: int| 0 <= k < i ==> #[trigger] out@[k]@ == game_path_candidate(libs, k, sep),
        decreases libraries@.len() * 2 - i,
    {
        let lib = &libraries[i / 2];
        let mut path: Vec<char> = Vec::new();
        let mut j: usize = 0;
        while j < lib.len()
            invariant
                j <= lib@.len(),
                path@ == lib@.subrange(0, j as int),
            decreases lib@.len() - j,
        {
            path.push(lib[j]);
            j = j + 1;
            assert(path@ =~= lib@.subrange(0, j as int));
        }
        assert(lib@.subrange(0, lib@.len() as int) =~= lib@);
        let ghost with_base = path@;
        push_part(&mut path, sep, &cases[i % 2]);
        let ghost with_case = path@;
        push_part(&mut path, sep, &common);
        let ghost with_common = path@;
        push_part(&mut path, sep, &game);
        proof {
            let c = steamapps_cases()[i as int % 2];
            let parts = seq![c] + game_folder();
            let q2 = parts.drop_last();
            let q1 = q2.drop_last();
            let q0 = q1.drop_last();
            assert(q2 =~= seq![c, game_folder()[0]]);
            assert(q1 =~= seq![c]);
            assert(q0 =~= Seq::<Seq<char>>::empty());
            assert(libs[i as int / 2] == lib@);
            assert(join_path(lib@, q0, sep) == with_base);
            assert(join_path(lib@, q1, sep) == with_case);
            assert(join_path(lib@, q2, sep) == with_common);
            assert(join_path(lib@, parts, sep) == path@);
        }
        out.push(path);
        i = i + 1;
    }
    out
}

/// The first candidate that is a directory (`present[i]` says whether
/// `candidates[i]` is one), if any.
pub fn get_game_path(candidates: &Vec<Vec<char>>, present: &Vec<bool>) -> (r: Option<usize>)
    requires
        present@.len() == candidates@.len(),
    ensures
        match r {
            Some(i) => i < candidates@.len() && present@[i as int]
                && forall|k: int| 0 <= k < i ==> !present@[k],
            None => forall|k: int| 0 <= k < present@.len() ==> !present@[k],
        },
{
    let mut i: usize = 0;
    while i < present.len()
        invariant
            i <= present@.len(),
            present@.len() == candidates@.len(),
            forall|k: int| 0 <= k < i ==> !present@[k],
        decreases present@.len() - i,
    {
        if present[i] {
            return Some(i);
        }
        i = i + 1;
    }
    None
}

} // verus!
