//! The context assembler: the pure function that turns attached file
//! contents, the bounded history window and the current question into the
//! one outbound query string.
//!
//! The layout is fixed: a file-context block when files are attached, then
//! a history block replaying the most recent exchanges in chronological
//! order with window-relative numbering, then a line carrying the current
//! question. With no files and no history the question is returned
//! unchanged.

use vstd::prelude::*;
use vstd::string::*;
use crate::files::{FileContext, FileContextView};
use crate::history::{ConversationEntry, EntryView, HISTORY_WINDOW, window};

verus! {

/// The decimal digit character for a small count.
pub open spec fn digit_char(n: int) -> char {
    if n == 1 {
        '1'
    } else if n == 2 {
        '2'
    } else if n == 3 {
        '3'
    } else if n == 4 {
        '4'
    } else if n == 5 {
        '5'
    } else if n == 6 {
        '6'
    } else if n == 7 {
        '7'
    } else if n == 8 {
        '8'
    } else {
        '9'
    }
}

/// The delimited block emitted for one attached file.
pub open spec fn file_block(f: FileContextView) -> Seq<char> {
    "\n--- File: "@ + f.path + " ---\n"@ + f.content + "\n--- End of file ---\n\n"@
}

/// The blocks of all attached files, in attach order.
pub open spec fn files_cat(files: Seq<FileContextView>) -> Seq<char>
    decreases files.len(),
{
    if files.len() == 0 {
        Seq::empty()
    } else {
        file_block(files[0]) + files_cat(files.drop_first())
    }
}

/// The file-context section: empty without files, else a header line and
/// one block per file.
pub open spec fn files_block(files: Seq<FileContextView>) -> Seq<char> {
    if files.len() == 0 {
        Seq::empty()
    } else {
        "File contexts:\n"@ + files_cat(files)
    }
}

/// One replayed exchange, numbered `n` within the window.
pub open spec fn entry_block(e: EntryView, n: int) -> Seq<char> {
    "Q"@ + seq![digit_char(n)] + ": "@ + e.question + "\nA"@ + seq![digit_char(n)] + ": "@
        + e.answer + "\n\n"@
}

/// The replayed exchanges of a window, numbered from `n` upwards.
pub open spec fn entries_cat(w: Seq<EntryView>, n: int) -> Seq<char>
    decreases w.len(),
{
    if w.len() == 0 {
        Seq::empty()
    } else {
        entry_block(w[0], n) + entries_cat(w.drop_first(), n + 1)
    }
}

/// The history section: empty without history, else a header line and the
/// windowed exchanges numbered from 1 for the oldest of the window.
pub open spec fn history_block(w: Seq<EntryView>) -> Seq<char> {
    if w.len() == 0 {
        Seq::empty()
    } else {
        "Previous conversation context:\n"@ + entries_cat(w, 1)
    }
}

/// The assembled query: file section, history section over the bounded
/// window, and the current question; or the question unchanged when there
/// is no context at all.
pub open spec fn assemble_spec(
    files: Seq<FileContextView>,
    hist: Seq<EntryView>,
    q: Seq<char>,
) -> Seq<char> {
    if files.len() == 0 && hist.len() == 0 {
        q
    } else {
        files_block(files) + history_block(window(hist, HISTORY_WINDOW as int))
            + "Current question: "@ + q
    }
}

proof fn lemma_files_cat_snoc(s: Seq<FileContextView>, i: int)
    requires
        0 <= i < s.len(),
    ensures
        files_cat(s.take(i + 1)) == files_cat(s.take(i)) + file_block(s[i]),
    decreases i,
{
    if i == 0 {
        assert(s.take(1)[0] == s[0]);
        assert(s.take(1).drop_first() =~= Seq::<FileContextView>::empty());
        assert(files_cat(s.take(1)) == file_block(s.take(1)[0]) + files_cat(
            s.take(1).drop_first(),
        ));
        assert(files_cat(s.take(0)) == Seq::<char>::empty());
        assert(Seq::<char>::empty() + file_block(s[0]) =~= file_block(s[0]) + Seq::<char>::empty());
    } else {
        lemma_files_cat_snoc(s.drop_first(), i - 1);
        assert(s.take(i + 1).drop_first() =~= s.drop_first().take(i));
        assert(s.take(i).drop_first() =~= s.drop_first().take(i - 1));
        assert(s.take(i + 1)[0] == s[0]);
        assert(s.take(i)[0] == s[0]);
        assert(s.drop_first()[i - 1] == s[i]);
        assert(files_cat(s.take(i + 1)) == file_block(s[0]) + files_cat(s.take(i + 1).drop_first()));
        assert(files_cat(s.take(i)) == file_block(s[0]) + files_cat(s.take(i).drop_first()));
        assert(file_block(s[0]) + (files_cat(s.drop_first().take(i - 1)) + file_block(s[i])) =~= (
        file_block(s[0]) + files_cat(s.drop_first().take(i - 1))) + file_block(s[i]));
    }
}

proof fn lemma_entries_cat_snoc(w: Seq<EntryView>, i: int, n: int)
    requires
        0 <= i < w.len(),
    ensures
        entries_cat(w.take(i + 1), n) == entries_cat(w.take(i), n) + entry_block(w[i], n + i),
    decreases i,
{
    if i == 0 {
        assert(w.take(1)[0] == w[0]);
        assert(w.take(1).drop_first() =~= Seq::<EntryView>::empty());
        assert(entries_cat(w.take(1), n) == entry_block(w.take(1)[0], n) + entries_cat(
            w.take(1).drop_first(),
            n + 1,
        ));
        assert(entries_cat(w.take(0), n) == Seq::<char>::empty());
        assert(Seq::<char>::empty() + entry_block(w[0], n) =~= entry_block(w[0], n)
            + Seq::<char>::empty());
    } else {
        lemma_entries_cat_snoc(w.drop_first(), i - 1, n + 1);
        assert(w.take(i + 1).drop_first() =~= w.drop_first().take(i));
        assert(w.take(i).drop_first() =~= w.drop_first().take(i - 1));
        assert(w.take(i + 1)[0] == w[0]);
        assert(w.take(i)[0] == w[0]);
        assert(w.drop_first()[i - 1] == w[i]);
        assert(entries_cat(w.take(i + 1), n) == entry_block(w[0], n) + entries_cat(
            w.take(i + 1).drop_first(),
            n + 1,
        ));
        assert(entries_cat(w.take(i), n) == entry_block(w[0], n) + entries_cat(
            w.take(i).drop_first(),
            n + 1,
        ));
        assert(entry_block(w[0], n) + (entries_cat(w.drop_first().take(i - 1), n + 1) + entry_block(
            w[i],
            n + i,
        )) =~= (entry_block(w[0], n) + entries_cat(w.drop_first().take(i - 1), n + 1))
            + entry_block(w[i], n + i));
    }
}

/// The digit label printed for window position `n`.
fn number_str(n: usize) -> (r: &'static str)
    requires
        1 <= n <= 9,
    ensures
        r@ == seq![digit_char(n as int)],
{
    proof {
        reveal_strlit("1");
        reveal_strlit("2");
        reveal_strlit("3");
        reveal_strlit("4");
        reveal_strlit("5");
        reveal_strlit("6");
        reveal_strlit("7");
        reveal_strlit("8");
        reveal_strlit("9");
    }
    let r = if n == 1 {
        "1"
    } else if n == 2 {
        "2"
    } else if n == 3 {
        "3"
    } else if n == 4 {
        "4"
    } else if n == 5 {
        "5"
    } else if n == 6 {
        "6"
    } else if n == 7 {
        "7"
    } else if n == 8 {
        "8"
    } else {
        "9"
    };
    proof {
        assert(r@ =~= seq![digit_char(n as int)]);
    }
    r
}

/// Assemble the outbound query from the attached files, the history and
/// the current question.
pub fn assemble(
    files: &Vec<FileContext>,
    history: &Vec<ConversationEntry>,
    question: &str,
) -> (r: String)
    ensures
        r@ == assemble_spec(
            files@.map_values(|f: FileContext| f@),
            history@.map_values(|e: ConversationEntry| e@),
            question@,
        ),
        files@.len() == 0 && history@.len() == 0 ==> r@ == question@,
{
    let ghost fv = files@.map_values(|f: FileContext| f@);
    let ghost hv = history@.map_values(|e: ConversationEntry| e@);
    if files.len() == 0 && history.len() == 0 {
        return question.to_owned();
    }
    let mut out = String::new();
    if files.len() > 0 {
        out.append("File contexts:\n");
        let flen = files.len();
        let mut i: usize = 0;
        proof {
            assert(fv.take(0) =~= Seq::<FileContextView>::empty());
            assert(out@ =~= "File contexts:\n"@ + files_cat(fv.take(0)));
        }
        while i < flen
            invariant
                i <= flen,
                flen == files@.len(),
                flen == fv.len(),
                fv == files@.map_values(|f: FileContext| f@),
                out@ == "File contexts:\n"@ + files_cat(fv.take(i as int)),
            decreases flen - i,
        {
            let ghost pre = out@;
            out.append("\n--- File: ");
            out.append(files[i].path.as_str());
            out.append(" ---\n");
            out.append(files[i].content.as_str());
            out.append("\n--- End of file ---\n\n");
            proof {
                lemma_files_cat_snoc(fv, i as int);
                assert(fv[i as int] == files@[i as int]@);
                assert(out@ =~= pre + file_block(fv[i as int]));
                assert(pre + file_block(fv[i as int]) =~= "File contexts:\n"@ + files_cat(
                    fv.take(i as int + 1),
                ));
            }
            i = i + 1;
        }
        proof {
            assert(fv.take(flen as int) =~= fv);
            assert(out@ == files_block(fv));
        }
    }
    proof {
        assert(out@ =~= files_block(fv));
    }
    if history.len() > 0 {
        let ghost before_hist = out@;
        out.append("Previous conversation context:\n");
        let hlen = history.len();
        let start = if hlen <= HISTORY_WINDOW {
            0
        } else {
            hlen - HISTORY_WINDOW
        };
        let ghost w = window(hv, HISTORY_WINDOW as int);
        proof {
            assert(w =~= hv.skip(start as int));
            assert(w.take(0) =~= Seq::<EntryView>::empty());
            assert(out@ =~= before_hist + "Previous conversation context:\n"@ + entries_cat(
                w.take(0),
                1,
            ));
        }
        let mut i = start;
        while i < hlen
            invariant
                start <= i <= hlen,
                hlen == history@.len(),
                hlen == hv.len(),
                hv == history@.map_values(|e: ConversationEntry| e@),
                w == window(hv, HISTORY_WINDOW as int),
                w =~= hv.skip(start as int),
                start + w.len() == hlen,
                i - start + 1 <= 9,
                out@ == before_hist + "Previous conversation context:\n"@ + entries_cat(
                    w.take(i - start),
                    1,
                ),
            decreases hlen - i,
        {
            let ghost pre = out@;
            let n = i - start + 1;
            out.append("Q");
            out.append(number_str(n));
            out.append(": ");
            out.append(history[i].question.as_str());
            out.append("\nA");
            out.append(number_str(n));
            out.append(": ");
            out.append(history[i].answer.as_str());
            out.append("\n\n");
            proof {
                lemma_entries_cat_snoc(w, i - start, 1);
                assert(w[i - start] == hv[i as int]);
                assert(hv[i as int] == history@[i as int]@);
                assert(out@ =~= pre + entry_block(w[i - start], 1 + (i - start)));
                assert(pre + entry_block(w[i - start], 1 + (i - start)) =~= before_hist
                    + "Previous conversation context:\n"@ + entries_cat(w.take(i - start + 1), 1));
            }
            i = i + 1;
        }
        proof {
            assert(w.take(hlen - start) =~= w);
            assert(out@ =~= before_hist + ("Previous conversation context:\n"@ + entries_cat(w, 1)));
            assert(out@ == files_block(fv) + history_block(w));
        }
    }
    proof {
        assert(out@ =~= files_block(fv) + history_block(window(hv, HISTORY_WINDOW as int)));
    }
    let ghost before_q = out@;
    out.append("Current question: ");
    out.append(question);
    proof {
        assert(out@ =~= before_q + "Current question: "@ + question@);
        assert(out@ =~= assemble_spec(fv, hv, question@));
    }
    out
}

}
