use vstd::prelude::*;

verus! {

/// An identifier that the newline-delimited history format can carry: it is
/// non-empty and contains no newline, so writing it on a line of its own
/// reads back as the same identifier.
pub open spec fn valid_id(id: Seq<char>) -> bool {
    &&& id.len() > 0
    &&& forall|i: int| 0 <= i < id.len() ==> id[i] != '\n'
}

/// The set of previously-surfaced record identifiers.
///
/// Viewed as a set of character sequences. Internally the identifiers are
/// kept without duplicates, each one non-empty and newline-free, so the set
/// can always be rendered to the on-disk format and parsed back unchanged.
pub struct History {
    ids: Vec<String>,
}

impl View for History {
    type V = Set<Seq<char>>;

    closed spec fn view(&self) -> Set<Seq<char>> {
        self.ids@.map_values(|id: String| id@).to_set()
    }
}

impl History {
    /// The identifiers stored are pairwise distinct and each fit for the
    /// newline-delimited format.
    pub closed spec fn wf(&self) -> bool {
        &&& forall|i: int| 0 <= i < self.ids@.len() ==> valid_id(#[trigger] self.ids@[i]@)
        &&& forall|i: int, j: int|
            0 <= i < j < self.ids@.len() ==> self.ids@[i]@ != self.ids@[j]@
    }

    /// The empty history.
    pub fn new() -> (h: History)
        ensures
            h@ == Set::<Seq<char>>::empty(),
            h.wf(),
    {
        let h = History { ids: Vec::new() };
        proof {
            assert(h@ =~= Set::<Seq<char>>::empty());
        }
        h
    }

    /// How many identifiers are recorded.
    pub fn len(&self) -> (n: usize)
        requires
            self.wf(),
        ensures
            n == self@.len(),
    {
        let n = self.ids.len();
        proof {
            let mapped = self.ids@.map_values(|s: String| s@);
            assert(mapped.no_duplicates()) by {
                assert(forall|i: int, j: int|
                    0 <= i < mapped.len() && 0 <= j < mapped.len() && i != j
                        ==> #[trigger] mapped[i] != #[trigger] mapped[j]) by {
                    assert(forall|i: int, j: int|
                        0 <= i < j < self.ids@.len()
                            ==> #[trigger] self.ids@[i]@ != #[trigger] self.ids@[j]@);
                }
            }
            mapped.unique_seq_to_set();
        }
        n
    }

    /// Has `id` been recorded?
    pub fn contains(&self, id: &String) -> (r: bool)
        ensures
            r == self@.contains(id@),
    {
        let ghost mapped = self.ids@.map_values(|s: String| s@);
        let mut i: usize = 0;
        while i < self.ids.len()
            invariant
                i <= self.ids@.len(),
                mapped == self.ids@.map_values(|s: String| s@),
                forall|j: int| 0 <= j < i ==> self.ids@[j]@ != id@,
            decreases self.ids@.len() - i,
        {
            if self.ids[i].eq(id) {
                proof {
                    assert(mapped[i as int] == id@);
                    assert(self@.contains(id@));
                }
                return true;
            }
            i += 1;
        }
        proof {
            assert(forall|j: int| 0 <= j < mapped.len() ==> mapped[j] != id@);
            assert(!self@.contains(id@));
        }
        false
    }

    /// Record `id`. An identifier the on-disk format cannot carry (empty, or
    /// holding a newline) is left out, so the set always survives a
    /// render/parse round trip; recording an identifier twice changes
    /// nothing.
    pub fn insert(&mut self, id: String)
        requires
            old(self).wf(),
        ensures
            final(self).wf(),
            valid_id(id@) ==> final(self)@ == old(self)@.insert(id@),
            !valid_id(id@) ==> final(self)@ == old(self)@,
    {
        if !is_valid_id(&id) {
            return;
        }
        if self.contains(&id) {
            proof {
                assert(self@.insert(id@) =~= self@);
            }
            return;
        }
        let ghost old_ids = self.ids@;
        self.ids.push(id);
        proof {
            let mapped_old = old_ids.map_values(|s: String| s@);
            let mapped_new = self.ids@.map_values(|s: String| s@);
            assert(mapped_new =~= mapped_old.push(id@));
            assert(mapped_new.to_set() =~= mapped_old.to_set().insert(id@)) by {
                assert(forall|x: Seq<char>| mapped_old.to_set().contains(x)
                    ==> #[trigger] mapped_new.to_set().contains(x)) by {
                    assert(forall|k: int| 0 <= k < mapped_old.len()
                        ==> mapped_new[k] == #[trigger] mapped_old[k]);
                }
                assert(mapped_new.contains(id@)) by {
                    assert(mapped_new[mapped_new.len() - 1] == id@);
                }
                assert(forall|x: Seq<char>| #[trigger] mapped_new.to_set().contains(x)
                    ==> mapped_old.to_set().contains(x) || x == id@);
            }
            assert(forall|k: int| 0 <= k < mapped_old.len()
                ==> #[trigger] mapped_old[k] != id@) by {
                assert(forall|k: int| 0 <= k < mapped_old.len()
                    ==> mapped_old.to_set().contains(#[trigger] mapped_old[k]));
            }
            assert(forall|k: int| 0 <= k < old_ids.len()
                ==> #[trigger] self.ids@[k]@ != id@) by {
                assert(forall|k: int| 0 <= k < old_ids.len()
                    ==> #[trigger] self.ids@[k]@ == mapped_old[k]);
            }
        }
    }
}

/// One pass over the newline-delimited format: the non-empty segments of
/// `text` between newlines, given that `cur` is the partial segment read so
/// far. A trailing segment without a final newline still counts.
pub open spec fn ids_in_from(text: Seq<char>, cur: Seq<char>) -> Set<Seq<char>>
    decreases text.len(),
{
    if text.len() == 0 {
        if cur.len() == 0 {
            Set::empty()
        } else {
            Set::empty().insert(cur)
        }
    } else if text[0] == '\n' {
        if cur.len() == 0 {
            ids_in_from(text.skip(1), Seq::empty())
        } else {
            ids_in_from(text.skip(1), Seq::empty()).insert(cur)
        }
    } else {
        ids_in_from(text.skip(1), cur.push(text[0]))
    }
}

/// The set of identifiers that a history file with contents `text` denotes:
/// its non-empty lines.
pub open spec fn ids_in(text: Seq<char>) -> Set<Seq<char>> {
    ids_in_from(text, Seq::empty())
}

/// The newline-delimited rendering of the identifiers in `ids`, in order,
/// each followed by one newline.
pub open spec fn rendered(ids: Seq<Seq<char>>) -> Seq<char>
    decreases ids.len(),
{
    if ids.len() == 0 {
        Seq::empty()
    } else {
        ids[0] + seq!['\n'] + rendered(ids.skip(1))
    }
}

/// Scanning a newline-free prefix only moves it into the partial segment.
proof fn lemma_scan_prefix(seg: Seq<char>, rest: Seq<char>, cur: Seq<char>)
    requires
        forall|i: int| 0 <= i < seg.len() ==> seg[i] != '\n',
    ensures
        ids_in_from(seg + rest, cur) == ids_in_from(rest, cur + seg),
    decreases seg.len(),
{
    if seg.len() == 0 {
        assert(seg + rest =~= rest);
        assert(cur + seg =~= cur);
    } else {
        assert((seg + rest)[0] == seg[0]);
        assert((seg + rest).skip(1) =~= seg.skip(1) + rest);
        lemma_scan_prefix(seg.skip(1), rest, cur.push(seg[0]));
        assert(cur.push(seg[0]) + seg.skip(1) =~= cur + seg);
    }
}

/// Law: the render/parse round trip is the identity on the recorded set.
/// Rendering any sequence of distinct-or-not identifiers that the format
/// can carry, and parsing the result, yields exactly the set of those
/// identifiers — set equality, independent of the order they were written
/// in.
pub proof fn lemma_rendered_round_trip(ids: Seq<Seq<char>>)
    requires
        forall|i: int| 0 <= i < ids.len() ==> valid_id(#[trigger] ids[i]),
    ensures
        ids_in(rendered(ids)) == ids.to_set(),
    decreases ids.len(),
{
    if ids.len() == 0 {
        assert(ids_in(rendered(ids)) =~= ids.to_set());
    } else {
        let seg = ids[0];
        let tail = ids.skip(1);
        let rest = seq!['\n'] + rendered(tail);
        assert(valid_id(seg));
        lemma_scan_prefix(seg, rest, Seq::empty());
        assert(seg + rest =~= rendered(ids));
        assert(Seq::<char>::empty() + seg =~= seg);
        assert(rest[0] == '\n');
        assert(rest.skip(1) =~= rendered(tail));
        assert(ids_in(rendered(ids)) == ids_in(rendered(tail)).insert(seg));
        lemma_rendered_round_trip(tail);
        assert(tail.to_set().insert(seg) =~= ids.to_set()) by {
            assert(forall|x: Seq<char>| tail.to_set().contains(x)
                ==> #[trigger] ids.to_set().contains(x)) by {
                assert(forall|k: int| 0 <= k < tail.len()
                    ==> #[trigger] tail[k] == ids[k + 1]);
            }
            assert(ids.to_set().contains(seg)) by {
                assert(ids[0] == seg);
            }
            assert(forall|x: Seq<char>| #[trigger] ids.to_set().contains(x)
                ==> x == seg || tail.to_set().contains(x)) by {
                assert(forall|k: int| 1 <= k < ids.len()
                    ==> #[trigger] ids[k] == tail[k - 1]);
            }
        }
    }
}

impl History {
    /// Parse the contents of a history file: every non-empty line becomes a
    /// recorded identifier. Any text at all is accepted.
    pub fn parse_history(text: &str) -> (h: History)
        ensures
            h@ == ids_in(text@),
            h.wf(),
    {
        let mut h = History::new();
        let len = text.unicode_len();
        let mut i: usize = 0;
        let mut start: usize = 0;
        proof {
            assert(text@.skip(0) =~= text@);
            assert(text@.subrange(0, 0) =~= Seq::<char>::empty());
            assert(h@.union(ids_in(text@)) =~= ids_in(text@));
        }
        while i < len
            invariant
                start <= i <= len,
                len == text@.len(),
                h.wf(),
                forall|j: int| start <= j < i ==> text@[j] != '\n',
                ids_in(text@) == h@.union(
                    ids_in_from(text@.skip(i as int), text@.subrange(start as int, i as int)),
                ),
            decreases len - i,
        {
            let ghost pending = ids_in_from(
                text@.skip(i as int),
                text@.subrange(start as int, i as int),
            );
            let c = text.get_char(i);
            proof {
                assert(text@.skip(i as int)[0] == text@[i as int]);
                assert(text@.skip(i as int).skip(1) =~= text@.skip(i as int + 1));
            }
            if c == '\n' {
                let ghost seg = text@.subrange(start as int, i as int);
                proof {
                    assert(pending == if seg.len() == 0 {
                        ids_in_from(text@.skip(i as int + 1), Seq::<char>::empty())
                    } else {
                        ids_in_from(text@.skip(i as int + 1), Seq::<char>::empty()).insert(seg)
                    });
                    assert(text@.subrange(i as int + 1, i as int + 1)
                        =~= Seq::<char>::empty());
                }
                if start < i {
                    let piece = text.substring_char(start, i);
                    let ghost old_h = h@;
                    h.insert(piece.to_owned());
                    proof {
                        assert(valid_id(seg));
                        assert(h@ == old_h.insert(seg));
                        assert(old_h.union(pending) =~= h@.union(
                            ids_in_from(text@.skip(i as int + 1), Seq::<char>::empty()),
                        ));
                    }
                } else {
                    proof {
                        assert(seg.len() == 0);
                    }
                }
                start = i + 1;
            } else {
                proof {
                    assert(text@.subrange(start as int, i as int).push(text@[i as int])
                        =~= text@.subrange(start as int, i as int + 1));
                }
            }
            i += 1;
        }
        let ghost seg = text@.subrange(start as int, len as int);
        proof {
            assert(text@.skip(len as int) =~= Seq::<char>::empty());
        }
        if start < len {
            let piece = text.substring_char(start, len);
            let ghost old_h = h@;
            h.insert(piece.to_owned());
            proof {
                assert(valid_id(seg));
                assert(old_h.union(Set::empty().insert(seg)) =~= old_h.insert(seg));
                assert(h@ =~= ids_in(text@));
            }
        } else {
            proof {
                assert(seg.len() == 0);
                assert(h@.union(Set::<Seq<char>>::empty()) =~= h@);
            }
        }
        h
    }

    /// Render the recorded set in the on-disk format: each identifier on a
    /// line of its own, newline-terminated. Parsing the result — on this
    /// run or any later one — yields exactly the recorded set back.
    pub fn render_history(&self) -> (r: String)
        requires
            self.wf(),
        ensures
            ids_in(r@) == self@,
    {
        let mut out = String::new();
        let ghost mapped = self.ids@.map_values(|s: String| s@);
        let mut k: usize = 0;
        proof {
            assert(mapped.skip(0) =~= mapped);
            assert(Seq::<char>::empty() + rendered(mapped) =~= rendered(mapped));
        }
        while k < self.ids.len()
            invariant
                k <= self.ids@.len(),
                self.wf(),
                mapped == self.ids@.map_values(|s: String| s@),
                rendered(mapped) == out@ + rendered(mapped.skip(k as int)),
            decreases self.ids@.len() - k,
        {
            let ghost out0 = out@;
            out.append(self.ids[k].as_str());
            out.append("\n");
            proof {
                reveal_strlit("\n");
                assert("\n"@ =~= seq!['\n']);
                let rest = mapped.skip(k as int);
                assert(rest[0] == mapped[k as int]);
                assert(rest.skip(1) =~= mapped.skip(k as int + 1));
                assert(rendered(rest) == rest[0] + seq!['\n'] + rendered(rest.skip(1)));
                assert(mapped[k as int] == self.ids@[k as int]@);
                assert(out@ =~= out0 + mapped[k as int] + seq!['\n']);
                assert(out@ + rendered(mapped.skip(k as int + 1))
                    =~= out0 + rendered(rest));
            }
            k += 1;
        }
        proof {
            assert(mapped.skip(mapped.len() as int) =~= Seq::<Seq<char>>::empty());
            assert(out@ =~= rendered(mapped));
            assert(forall|i: int| 0 <= i < mapped.len()
                ==> valid_id(#[trigger] mapped[i])) by {
                assert(forall|i: int| 0 <= i < mapped.len()
                    ==> #[trigger] mapped[i] == self.ids@[i]@);
            }
            lemma_rendered_round_trip(mapped);
        }
        out
    }
}

/// Can the newline-delimited history format carry `id` unchanged?
pub fn is_valid_id(id: &String) -> (r: bool)
    ensures
        r == valid_id(id@),
{
    let len = id.as_str().unicode_len();
    if len == 0 {
        return false;
    }
    let mut i: usize = 0;
    while i < len
        invariant
            i <= len,
            len == id@.len(),
            forall|j: int| 0 <= j < i ==> id@[j] != '\n',
        decreases len - i,
    {
        if id.as_str().get_char(i) == '\n' {
            return false;
        }
        i += 1;
    }
    true
}

} // verus!
