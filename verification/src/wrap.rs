//! The text wrapper: splits a line into whitespace-separated words and
//! greedily packs the words into width-bounded segments. A word is never
//! split; a single word wider than the requested width is emitted alone.

use vstd::prelude::*;

use crate::text::is_space;
use crate::text::is_space_char;

verus! {

/// The words still to be found in `s`, with `cur` the word characters
/// read so far. Words are the maximal runs of non-whitespace characters.
pub open spec fn words_acc(s: Seq<char>, cur: Seq<char>) -> Seq<Seq<char>>
    decreases s.len(),
{
    if s.len() == 0 {
        if cur.len() == 0 {
            Seq::empty()
        } else {
            seq![cur]
        }
    } else if is_space(s[0]) {
        if cur.len() == 0 {
            words_acc(s.drop_first(), cur)
        } else {
            seq![cur] + words_acc(s.drop_first(), Seq::empty())
        }
    } else {
        words_acc(s.drop_first(), cur.push(s[0]))
    }
}

/// The whitespace-separated words of `s`, in order.
pub open spec fn words_of(s: Seq<char>) -> Seq<Seq<char>> {
    words_acc(s, Seq::empty())
}

/// Greedy packing of the words `ws` into segments of at most `w`
/// characters, with `cur` the segment under construction: a segment is
/// flushed before a word that would not fit beside it.
pub open spec fn greedy_wrap(ws: Seq<Seq<char>>, cur: Seq<char>, w: int) -> Seq<Seq<char>>
    decreases ws.len(),
{
    if ws.len() == 0 {
        if cur.len() == 0 {
            Seq::empty()
        } else {
            seq![cur]
        }
    } else if cur.len() + ws[0].len() + 1 > w && cur.len() > 0 {
        seq![cur] + greedy_wrap(ws.drop_first(), ws[0], w)
    } else if cur.len() == 0 {
        greedy_wrap(ws.drop_first(), ws[0], w)
    } else {
        greedy_wrap(ws.drop_first(), cur + " "@ + ws[0], w)
    }
}

/// What wrapping a line to width `w` yields.
pub open spec fn wrap_model(line: Seq<char>, w: int) -> Seq<Seq<char>> {
    greedy_wrap(words_of(line), Seq::empty(), w)
}

/// The whitespace-separated words of a line, in order.
pub fn split_words(s: &str) -> (out: Vec<String>)
    ensures
        out.deep_view() == words_of(s@),
{
    let len = s.unicode_len();
    let mut out: Vec<String> = Vec::new();
    let mut i: usize = 0;
    let mut ws: usize = 0;
    let mut in_word: bool = false;
    proof {
        assert(out.deep_view() =~= Seq::<Seq<char>>::empty());
        assert(s@.skip(0) =~= s@);
        assert(words_of(s@) =~= out.deep_view() + words_acc(s@, Seq::<char>::empty()));
    }
    while i < len
        invariant
            i <= len,
            len == s@.len(),
            in_word ==> ws < i,
            words_of(s@) == out.deep_view() + words_acc(
                s@.skip(i as int),
                (if in_word {
                    s@.subrange(ws as int, i as int)
                } else {
                    Seq::<char>::empty()
                }),
            ),
        decreases len - i,
    {
        let ghost cur = if in_word {
            s@.subrange(ws as int, i as int)
        } else {
            Seq::<char>::empty()
        };
        proof {
            assert(s@.skip(i as int)[0] == s@[i as int]);
            assert(s@.skip(i as int).drop_first() =~= s@.skip(i as int + 1));
        }
        let c = s.get_char(i);
        if is_space_char(c) {
            if in_word {
                let word = s.substring_char(ws, i).to_owned();
                proof {
                    let ghost prev = out.deep_view();
                    assert(words_acc(s@.skip(i as int), cur) == seq![cur] + words_acc(
                        s@.skip(i as int + 1),
                        Seq::<char>::empty(),
                    ));
                    assert(prev + (seq![cur] + words_acc(s@.skip(i as int + 1), Seq::<char>::empty()))
                        =~= (prev + seq![cur]) + words_acc(s@.skip(i as int + 1), Seq::<char>::empty()));
                }
                let ghost prev = out.deep_view();
                out.push(word);
                proof {
                    assert(out.deep_view() =~= prev + seq![cur]);
                }
                in_word = false;
            }
        } else {
            if !in_word {
                ws = i;
                in_word = true;
                proof {
                    assert(Seq::<char>::empty().push(s@[i as int]) =~= s@.subrange(
                        i as int,
                        i as int + 1,
                    ));
                }
            } else {
                proof {
                    assert(cur.push(s@[i as int]) =~= s@.subrange(ws as int, i as int + 1));
                }
            }
        }
        i = i + 1;
    }
    proof {
        assert(s@.skip(len as int) =~= Seq::<char>::empty());
    }
    if in_word {
        let word = s.substring_char(ws, len).to_owned();
        let ghost prev = out.deep_view();
        out.push(word);
        proof {
            assert(out.deep_view() =~= prev + seq![s@.subrange(ws as int, len as int)]);
            assert(out.deep_view() =~= words_of(s@));
        }
    } else {
        proof {
            assert(out.deep_view() =~= words_of(s@));
        }
    }
    out
}

proof fn lemma_words_acc_nonempty(s: Seq<char>, cur: Seq<char>)
    ensures
        forall|k: int|
            0 <= k < words_acc(s, cur).len() ==> #[trigger] words_acc(s, cur)[k].len() > 0,
    decreases s.len(),
{
    if s.len() == 0 {
        if cur.len() > 0 {
            assert(words_acc(s, cur)[0] == cur);
        }
    } else if is_space(s[0]) {
        if cur.len() == 0 {
            lemma_words_acc_nonempty(s.drop_first(), cur);
            assert forall|k: int|
                0 <= k < words_acc(s, cur).len() implies #[trigger] words_acc(s, cur)[k].len()
                > 0 by {
                assert(words_acc(s, cur)[k] == words_acc(s.drop_first(), cur)[k]);
            }
        } else {
            lemma_words_acc_nonempty(s.drop_first(), Seq::empty());
            let rest = words_acc(s.drop_first(), Seq::<char>::empty());
            assert forall|k: int|
                0 <= k < words_acc(s, cur).len() implies #[trigger] words_acc(s, cur)[k].len()
                > 0 by {
                if k > 0 {
                    assert((seq![cur] + rest)[k] == rest[k - 1]);
                } else {
                    assert((seq![cur] + rest)[0] == cur);
                }
            }
        }
    } else {
        lemma_words_acc_nonempty(s.drop_first(), cur.push(s[0]));
        assert forall|k: int|
            0 <= k < words_acc(s, cur).len() implies #[trigger] words_acc(s, cur)[k].len() > 0 by {
            assert(words_acc(s, cur)[k] == words_acc(s.drop_first(), cur.push(s[0]))[k]);
        }
    }
}

proof fn lemma_greedy_width(ws: Seq<Seq<char>>, cur: Seq<char>, w: int)
    requires
        cur.len() <= w,
        forall|k: int| 0 <= k < ws.len() ==> #[trigger] ws[k].len() < w,
    ensures
        forall|k: int|
            0 <= k < greedy_wrap(ws, cur, w).len() ==> #[trigger] greedy_wrap(ws, cur, w)[k].len()
                <= w,
    decreases ws.len(),
{
    reveal_strlit(" ");
    if ws.len() == 0 {
        if cur.len() > 0 {
            assert(greedy_wrap(ws, cur, w)[0] == cur);
        }
    } else {
        let rest = ws.drop_first();
        assert(ws[0].len() < w);
        assert forall|k: int| 0 <= k < rest.len() implies #[trigger] rest[k].len() < w by {
            assert(rest[k] == ws[k + 1]);
        }
        if cur.len() + ws[0].len() + 1 > w && cur.len() > 0 {
            lemma_greedy_width(rest, ws[0], w);
            let g = greedy_wrap(rest, ws[0], w);
            assert forall|k: int|
                0 <= k < greedy_wrap(ws, cur, w).len() implies #[trigger] greedy_wrap(
                ws,
                cur,
                w,
            )[k].len() <= w by {
                if k > 0 {
                    assert((seq![cur] + g)[k] == g[k - 1]);
                } else {
                    assert((seq![cur] + g)[0] == cur);
                }
            }
        } else if cur.len() == 0 {
            lemma_greedy_width(rest, ws[0], w);
            assert forall|k: int|
                0 <= k < greedy_wrap(ws, cur, w).len() implies #[trigger] greedy_wrap(
                ws,
                cur,
                w,
            )[k].len() <= w by {
                assert(greedy_wrap(ws, cur, w)[k] == greedy_wrap(rest, ws[0], w)[k]);
            }
        } else {
            assert((cur + " "@ + ws[0]).len() == cur.len() + 1 + ws[0].len());
            lemma_greedy_width(rest, cur + " "@ + ws[0], w);
            assert forall|k: int|
                0 <= k < greedy_wrap(ws, cur, w).len() implies #[trigger] greedy_wrap(
                ws,
                cur,
                w,
            )[k].len() <= w by {
                assert(greedy_wrap(ws, cur, w)[k] == greedy_wrap(rest, cur + " "@ + ws[0], w)[k]);
            }
        }
    }
}

/// The segments joined with single spaces.
pub open spec fn join_space(xs: Seq<Seq<char>>) -> Seq<char>
    decreases xs.len(),
{
    if xs.len() == 0 {
        Seq::empty()
    } else if xs.len() == 1 {
        xs[0]
    } else {
        xs[0] + " "@ + join_space(xs.drop_first())
    }
}

spec fn lead(cur: Seq<char>, rest: Seq<char>) -> Seq<char> {
    if cur.len() == 0 {
        rest
    } else if rest.len() == 0 {
        cur
    } else {
        cur + " "@ + rest
    }
}

proof fn lemma_join_nonempty(xs: Seq<Seq<char>>)
    requires
        forall|k: int| 0 <= k < xs.len() ==> #[trigger] xs[k].len() > 0,
    ensures
        (join_space(xs).len() > 0) <==> (xs.len() > 0),
{
    if xs.len() >= 1 {
        assert(xs[0].len() > 0);
    }
}

proof fn lemma_join_cons(x: Seq<char>, rest: Seq<Seq<char>>)
    ensures
        join_space(seq![x] + rest) == (if rest.len() == 0 {
            x
        } else {
            x + " "@ + join_space(rest)
        }),
{
    let xs = seq![x] + rest;
    assert(xs[0] == x);
    if rest.len() == 0 {
        assert(xs.len() == 1);
    } else {
        assert(xs.drop_first() =~= rest);
    }
}

proof fn lemma_greedy_rejoin(ws: Seq<Seq<char>>, cur: Seq<char>, w: int)
    requires
        forall|k: int| 0 <= k < ws.len() ==> #[trigger] ws[k].len() > 0,
    ensures
        join_space(greedy_wrap(ws, cur, w)) == lead(cur, join_space(ws)),
    decreases ws.len(),
{
    if ws.len() == 0 {
    } else {
        let rest = ws.drop_first();
        assert forall|k: int| 0 <= k < rest.len() implies #[trigger] rest[k].len() > 0 by {
            assert(rest[k] == ws[k + 1]);
        }
        lemma_join_nonempty(rest);
        let jr = join_space(rest);
        if ws.len() == 1 {
            assert(join_space(ws) == ws[0]);
            assert(rest.len() == 0);
        }
        assert(join_space(ws) == lead(ws[0], jr));
        if cur.len() + ws[0].len() + 1 > w && cur.len() > 0 {
            lemma_greedy_rejoin(rest, ws[0], w);
            let g = greedy_wrap(rest, ws[0], w);
            assert(join_space(g).len() > 0);
            assert(g.len() > 0);
            lemma_join_cons(cur, g);
        } else if cur.len() == 0 {
            lemma_greedy_rejoin(rest, ws[0], w);
        } else {
            lemma_greedy_rejoin(rest, cur + " "@ + ws[0], w);
            if jr.len() > 0 {
                assert((cur + " "@ + ws[0]) + " "@ + jr =~= cur + " "@ + (ws[0] + " "@ + jr));
            }
        }
    }
}

/// When every word of a line is shorter than the width, wrapping the
/// line never yields a segment longer than the width.
pub proof fn lemma_wrap_segments_within_width(line: Seq<char>, w: int)
    requires
        0 <= w,
        forall|k: int| 0 <= k < words_of(line).len() ==> #[trigger] words_of(line)[k].len() < w,
    ensures
        forall|k: int|
            0 <= k < wrap_model(line, w).len() ==> #[trigger] wrap_model(line, w)[k].len() <= w,
{
    lemma_greedy_width(words_of(line), Seq::empty(), w);
}

/// Joining the wrapped segments with single spaces reproduces the
/// whitespace-normalized line: the line's words joined by single spaces.
pub proof fn lemma_wrap_rejoins(line: Seq<char>, w: int)
    ensures
        join_space(wrap_model(line, w)) == join_space(words_of(line)),
{
    lemma_words_acc_nonempty(line, Seq::empty());
    lemma_greedy_rejoin(words_of(line), Seq::empty(), w);
}

/// Wraps a line to segments of at most `max_width` characters, breaking
/// only between words; a word wider than `max_width` stands alone.
pub fn wrap_text(line: &str, max_width: usize) -> (out: Vec<String>)
    ensures
        out.deep_view() == wrap_model(line@, max_width as int),
{
    let words = split_words(line);
    let ghost wsv = words.deep_view();
    let mut out: Vec<String> = Vec::new();
    let mut cur = String::new();
    let mut k: usize = 0;
    proof {
        assert(out.deep_view() =~= Seq::<Seq<char>>::empty());
        assert(wsv.skip(0) =~= wsv);
        assert(wrap_model(line@, max_width as int) =~= out.deep_view() + greedy_wrap(
            wsv,
            cur@,
            max_width as int,
        ));
    }
    while k < words.len()
        invariant
            k <= words@.len(),
            wsv == words.deep_view(),
            wsv.len() == words@.len(),
            wrap_model(line@, max_width as int) == out.deep_view() + greedy_wrap(
                wsv.skip(k as int),
                cur@,
                max_width as int,
            ),
        decreases words@.len() - k,
    {
        let ghost cur0 = cur@;
        proof {
            assert(wsv.skip(k as int)[0] == wsv[k as int]);
            assert(wsv.skip(k as int).drop_first() =~= wsv.skip(k as int + 1));
        }
        let word = &words[k];
        proof {
            assert(word.deep_view() == wsv[k as int]);
        }
        let cur_len = cur.as_str().unicode_len();
        let w_len = word.as_str().unicode_len();
        if (cur_len as u128) + (w_len as u128) + 1 > (max_width as u128) && cur_len > 0 {
            let ghost prev = out.deep_view();
            out.push(cur);
            cur = word.clone();
            proof {
                assert(out.deep_view() =~= prev + seq![cur0]);
                assert(prev + (seq![cur0] + greedy_wrap(wsv.skip(k as int + 1), cur@, max_width as int))
                    =~= (prev + seq![cur0]) + greedy_wrap(wsv.skip(k as int + 1), cur@, max_width as int));
            }
        } else if cur_len == 0 {
            cur = word.clone();
        } else {
            cur.append(" ");
            cur.append(word.as_str());
            proof {
                assert(cur@ == cur0 + " "@ + wsv[k as int]);
            }
        }
        k = k + 1;
    }
    proof {
        assert(wsv.skip(wsv.len() as int) =~= Seq::<Seq<char>>::empty());
    }
    let cur_len = cur.as_str().unicode_len();
    if cur_len > 0 {
        let ghost prev = out.deep_view();
        let ghost cur0 = cur@;
        out.push(cur);
        proof {
            assert(out.deep_view() =~= prev + seq![cur0]);
        }
    }
    proof {
        assert(out.deep_view() =~= wrap_model(line@, max_width as int));
    }
    out
}

} // verus!
