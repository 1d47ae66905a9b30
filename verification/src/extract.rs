//! Archive extraction safety: vetting tar entry paths and sizes.
//!
//! The extractor unpacks a gzipped tar into a fresh per-build
//! workspace.  Every entry path is split into `/`-separated components;
//! empty components and `.` are dropped, a leading `/` or a `..`
//! component is fatal, and the destination is always the workspace
//! joined with the remaining plain names.  An entry declaring more
//! than the size cap is fatal.

use vstd::prelude::*;

verus! {

/// Largest size, in bytes, a single archive entry may declare: 100 MiB.
pub const MAX_ENTRY_SIZE: u64 = 100 * 1024 * 1024;

/// Why an archive was refused.
#[derive(Debug, Clone, PartialEq, Eq)]
pub enum ExtractError {
    /// An entry path escapes the workspace: absolute, or with a `..`
    /// component.  Carries the offending path.
    UnsafePath(String),
    /// An entry declares a size over the cap.  Carries the size.
    EntryTooLarge(u64),
}

/// The `/`-separated components of a path, split naively: splitting
/// `"a//b/"` yields `a`, two empties and `b`; the empty path has one
/// empty component.
pub open spec fn split_path(s: Seq<char>) -> Seq<Seq<char>>
    decreases s.len(),
{
    if s.len() == 0 {
        seq![Seq::<char>::empty()]
    } else {
        let rest = split_path(s.drop_last());
        if s.last() == '/' {
            rest.push(Seq::<char>::empty())
        } else {
            rest.update(rest.len() - 1, rest.last().push(s.last()))
        }
    }
}

/// The components kept for the destination: non-empty ones other than
/// the current-directory name.
pub open spec fn kept_comps(comps: Seq<Seq<char>>) -> Seq<Seq<char>>
    decreases comps.len(),
{
    if comps.len() == 0 {
        Seq::empty()
    } else {
        let rest = kept_comps(comps.drop_last());
        if comps.last().len() > 0 && comps.last() != "."@ {
            rest.push(comps.last())
        } else {
            rest
        }
    }
}

/// `base` joined with each component in turn, `/`-separated.
pub open spec fn join_comps(base: Seq<char>, comps: Seq<Seq<char>>) -> Seq<char>
    decreases comps.len(),
{
    if comps.len() == 0 {
        base
    } else {
        join_comps(base, comps.drop_last()) + seq!['/'] + comps.last()
    }
}

/// An entry path that must not be extracted: absolute, or containing a
/// parent-directory component.
pub open spec fn entry_unsafe(s: Seq<char>) -> bool {
    ||| (s.len() > 0 && s[0] == '/')
    ||| exists|i: int| 0 <= i < split_path(s).len() && split_path(s)[i] == ".."@
}

/// Where a safe entry is extracted: the workspace joined with the
/// entry's kept components.
pub open spec fn dest_path(base: Seq<char>, s: Seq<char>) -> Seq<char> {
    join_comps(base, kept_comps(split_path(s)))
}

/// `split_path` never yields fewer than one component.
proof fn lemma_split_nonempty(s: Seq<char>)
    ensures
        split_path(s).len() >= 1,
    decreases s.len(),
{
    if s.len() > 0 {
        lemma_split_nonempty(s.drop_last());
    }
}

/// Completed components are stable: every component of a prefix ending
/// before the last is a component of the whole, at the same index.
proof fn lemma_split_prefix(a: Seq<char>, b: Seq<char>)
    ensures
        split_path(a).len() <= split_path(a + b).len(),
        forall|i: int|
            0 <= i < split_path(a).len() - 1 ==> split_path(a + b)[i] == split_path(a)[i],
    decreases b.len(),
{
    lemma_split_nonempty(a);
    if b.len() == 0 {
        assert(a + b =~= a);
    } else {
        let b1 = b.drop_last();
        lemma_split_prefix(a, b1);
        lemma_split_nonempty(a + b1);
        assert((a + b).drop_last() =~= a + b1);
        assert(split_path(a + b) == if (a + b).last() == '/' {
            split_path(a + b1).push(Seq::<char>::empty())
        } else {
            split_path(a + b1).update(
                split_path(a + b1).len() - 1,
                split_path(a + b1).last().push((a + b).last()),
            )
        });
    }
}

/// No component of a split path contains a separator.
proof fn lemma_split_no_sep(s: Seq<char>)
    ensures
        forall|i: int, j: int|
            0 <= i < split_path(s).len() && 0 <= j < split_path(s)[i].len() ==> split_path(
                s,
            )[i][j] != '/',
    decreases s.len(),
{
    if s.len() > 0 {
        lemma_split_no_sep(s.drop_last());
        lemma_split_nonempty(s.drop_last());
    }
}

/// Kept components are plain names: each is non-empty, not `.`, and
/// inherits freedom from `..` and separators from the split.
proof fn lemma_kept_props(comps: Seq<Seq<char>>)
    requires
        forall|j: int| 0 <= j < comps.len() ==> comps[j] != ".."@,
        forall|j: int, k: int|
            0 <= j < comps.len() && 0 <= k < comps[j].len() ==> comps[j][k] != '/',
    ensures
        forall|i: int|
            0 <= i < kept_comps(comps).len() ==> kept_comps(comps)[i].len() > 0 && kept_comps(
                comps,
            )[i] != "."@ && kept_comps(comps)[i] != ".."@ && (forall|k: int|
                0 <= k < kept_comps(comps)[i].len() ==> kept_comps(comps)[i][k] != '/'),
    decreases comps.len(),
{
    if comps.len() > 0 {
        let rest = comps.drop_last();
        assert(forall|j: int| 0 <= j < rest.len() ==> rest[j] == comps[j]);
        lemma_kept_props(rest);
        let kr = kept_comps(rest);
        let kc = kept_comps(comps);
        let last = comps.last();
        assert(last == comps[comps.len() - 1]);
        assert forall|i: int| 0 <= i < kc.len() implies kc[i].len() > 0 && kc[i] != "."@ && kc[i]
            != ".."@ && (forall|k: int| 0 <= k < kc[i].len() ==> kc[i][k] != '/') by {
            if last.len() > 0 && last != "."@ {
                assert(kc == kr.push(last));
                if i < kr.len() {
                    assert(kc[i] == kr[i]);
                } else {
                    assert(kc[i] == last);
                    assert(forall|k: int| 0 <= k < last.len() ==> last[k] != '/');
                }
            } else {
                assert(kc == kr);
                assert(kc[i] == kr[i]);
            }
        }
    }
}

/// A joined path extends the base: the base is a prefix, and anything
/// after it starts with a separator.
proof fn lemma_join_extends(base: Seq<char>, comps: Seq<Seq<char>>)
    ensures
        join_comps(base, comps).len() >= base.len(),
        join_comps(base, comps).subrange(0, base.len() as int) =~= base,
        comps.len() > 0 ==> join_comps(base, comps).len() > base.len() && join_comps(base, comps)[
            base.len() as int
        ] == '/',
    decreases comps.len(),
{
    if comps.len() > 0 {
        lemma_join_extends(base, comps.drop_last());
        let pre = join_comps(base, comps.drop_last());
        let whole = join_comps(base, comps);
        assert(whole =~= pre + seq!['/'] + comps.last());
        assert(whole.subrange(0, base.len() as int) =~= pre.subrange(0, base.len() as int));
        if comps.drop_last().len() == 0 {
            assert(pre =~= base);
            assert(whole[base.len() as int] == '/');
        }
    }
}

/// Safe extraction: the destination of a vetted entry stays inside the
/// workspace.  It extends the base path, the base is followed by a
/// separator, and every appended component is a plain name: non-empty,
/// not `.`, not `..`, with no separator inside it.
pub proof fn lemma_safe_extraction(base: Seq<char>, entry: Seq<char>)
    requires
        !entry_unsafe(entry),
    ensures
        ({
            let d = dest_path(base, entry);
            let kept = kept_comps(split_path(entry));
            &&& d.len() >= base.len()
            &&& d.subrange(0, base.len() as int) == base
            &&& d.len() > base.len() ==> d[base.len() as int] == '/'
            &&& forall|i: int|
                0 <= i < kept.len() ==> kept[i].len() > 0 && kept[i] != "."@ && kept[i] != ".."@
                    && (forall|j: int| 0 <= j < kept[i].len() ==> kept[i][j] != '/')
        }),
{
    let comps = split_path(entry);
    let kept = kept_comps(comps);
    lemma_join_extends(base, kept);
    lemma_split_no_sep(entry);
    assert(forall|j: int| 0 <= j < comps.len() ==> comps[j] != ".."@);
    lemma_kept_props(comps);
}

/// Vets one archive entry: its path against the traversal rules, then
/// its declared size against the cap.  Returns the destination path.
///
/// An unsafe path (absolute, or with a `..` component) is refused with
/// the offending path; `./name` and repeated separators are fine.  An
/// entry of exactly the cap passes; one byte more is refused.
pub fn vet_entry(entry: &str, size: u64, base: &str) -> (r: Result<String, ExtractError>)
    ensures
        entry_unsafe(entry@) ==> (r matches Err(ExtractError::UnsafePath(p)) && p@ == entry@),
        !entry_unsafe(entry@) && size > MAX_ENTRY_SIZE ==> r == Err::<String, ExtractError>(
            ExtractError::EntryTooLarge(size),
        ),
        !entry_unsafe(entry@) && size <= MAX_ENTRY_SIZE ==> (r matches Ok(d) && d@ == dest_path(
            base@,
            entry@,
        )),
{
    proof {
        reveal_strlit(".");
        reveal_strlit("..");
        reveal_strlit("/");
    }
    let len = entry.unicode_len();
    if len > 0 && entry.get_char(0) == '/' {
        return Err(ExtractError::UnsafePath(entry.to_owned()));
    }
    let mut out: String = base.to_owned();
    let ghost mut completed: Seq<Seq<char>> = Seq::empty();
    let mut cstart: usize = 0;
    let mut i: usize = 0;
    while i <= len
        invariant
            len == entry@.len(),
            len > 0 ==> entry@[0] != '/',
            0 <= cstart <= i <= len,
            split_path(entry@.subrange(0, i as int)) =~~= completed.push(
                entry@.subrange(cstart as int, i as int),
            ),
            forall|k: int| 0 <= k < completed.len() ==> completed[k] != ".."@,
            out@ =~= join_comps(base@, kept_comps(completed)),
            ".."@ =~= seq!['.', '.'],
            "."@ =~= seq!['.'],
            "/"@ =~= seq!['/'],
        decreases len - i + 1,
    {
        let boundary = i == len || entry.get_char(i) == '/';
        if boundary {
            let ghost comp = entry@.subrange(cstart as int, i as int);
            let clen = i - cstart;
            let is_dotdot = clen == 2 && entry.get_char(cstart) == '.' && entry.get_char(
                cstart + 1,
            ) == '.';
            proof {
                if is_dotdot {
                    assert(comp =~= ".."@);
                } else {
                    assert(comp != ".."@) by {
                        if comp.len() == 2 {
                            assert(comp[0] == entry@[cstart as int]);
                            assert(comp[1] == entry@[cstart as int + 1]);
                            assert((".."@)[0] == '.' && (".."@)[1] == '.');
                        }
                    }
                }
            }
            if is_dotdot {
                proof {
                    if i < len {
                        let pre = entry@.subrange(0, i as int);
                        let pre2 = entry@.subrange(0, i as int + 1);
                        assert(pre2.drop_last() =~= pre);
                        assert(pre2.last() == '/');
                        assert(split_path(pre2) =~~= completed.push(comp).push(
                            Seq::<char>::empty(),
                        ));
                        assert(split_path(pre2)[completed.len() as int] == comp);
                        let post = entry@.subrange(i as int + 1, len as int);
                        assert(pre2 + post =~= entry@);
                        lemma_split_prefix(pre2, post);
                        assert(split_path(entry@)[completed.len() as int] == comp);
                    } else {
                        assert(entry@.subrange(0, i as int) =~= entry@);
                        assert(split_path(entry@) =~~= completed.push(comp));
                        assert(split_path(entry@)[completed.len() as int] == comp);
                    }
                    assert(entry_unsafe(entry@));
                }
                return Err(ExtractError::UnsafePath(entry.to_owned()));
            }
            let is_dot = clen == 1 && entry.get_char(cstart) == '.';
            let keep = clen > 0 && !is_dot;
            proof {
                if is_dot {
                    assert(comp =~= "."@);
                }
                if keep {
                    assert(comp != "."@) by {
                        if comp.len() == 1 {
                            assert(comp[0] == entry@[cstart as int]);
                            assert(("."@)[0] == '.');
                        }
                    }
                    assert(comp.len() > 0);
                } else {
                    assert(comp.len() == 0 || comp == "."@);
                }
                assert(kept_comps(completed.push(comp)) =~~= if comp.len() > 0 && comp != "."@ {
                    kept_comps(completed).push(comp)
                } else {
                    kept_comps(completed)
                }) by {
                    assert(completed.push(comp).drop_last() =~~= completed);
                }
            }
            if keep {
                out.append("/");
                let piece = entry.substring_char(cstart, i);
                out.append(piece);
                proof {
                    assert(out@ =~= join_comps(base@, kept_comps(completed)) + seq!['/'] + comp);
                    assert(kept_comps(completed.push(comp)).drop_last() =~~= kept_comps(
                        completed,
                    ));
                    assert(out@ =~= join_comps(base@, kept_comps(completed.push(comp))));
                }
            }
            proof {
                completed = completed.push(comp);
            }
            if i == len {
                proof {
                    assert(entry@.subrange(0, len as int) =~= entry@);
                    assert(split_path(entry@) =~~= completed);
                    assert(forall|k: int|
                        0 <= k < split_path(entry@).len() ==> split_path(entry@)[k] != ".."@);
                    assert(!entry_unsafe(entry@));
                    assert(out@ =~= dest_path(base@, entry@));
                }
                if size > MAX_ENTRY_SIZE {
                    return Err(ExtractError::EntryTooLarge(size));
                }
                return Ok(out);
            }
            cstart = i + 1;
            proof {
                let pre = entry@.subrange(0, i as int);
                let pre2 = entry@.subrange(0, i as int + 1);
                assert(pre2.drop_last() =~= pre);
                assert(pre2.last() == '/');
                assert(entry@.subrange(cstart as int, i as int + 1) =~= Seq::<char>::empty());
                assert(split_path(pre2) =~~= completed.push(
                    entry@.subrange(cstart as int, i as int + 1),
                ));
            }
        } else {
            proof {
                let pre = entry@.subrange(0, i as int);
                let pre2 = entry@.subrange(0, i as int + 1);
                assert(pre2.drop_last() =~= pre);
                assert(pre2.last() == entry@[i as int]);
                assert(pre2.last() != '/');
                let part = entry@.subrange(cstart as int, i as int);
                let part2 = entry@.subrange(cstart as int, i as int + 1);
                assert(split_path(pre) =~~= completed.push(part));
                assert(split_path(pre).last() == part);
                assert(split_path(pre2) =~~= split_path(pre).update(
                    split_path(pre).len() - 1,
                    part.push(pre2.last()),
                ));
                assert(part.push(pre2.last()) =~= part2);
                assert(split_path(pre2) =~~= completed.push(part2));
            }
        }
        i += 1;
    }
    proof {
        assert(false);
    }
    Err(ExtractError::UnsafePath(entry.to_owned()))
}

} // verus!
