//! What is sent for an explanation: the latest batch of errors and the
//! source files that its records refer to.

use vstd::prelude::*;
use vstd::string::*;
use crate::batch::{extract_last_batch, extraction_of};
use crate::error::LogError;
use crate::order::{
    insert_sorted,
    inserted,
    lemma_inserted,
    lemma_sorted_is_distinct,
    strictly_sorted,
};
use crate::record::{is_error, records, ErrorLog, ErrorLogView};
use crate::text::texts;

verus! {

/// The decimal text that `i64::to_string` gives for a number.
pub uninterp spec fn decimal_i64(n: i64) -> Seq<char>;

/// Calls `i64::to_string`. The result is the named text `decimal_i64` of the
/// number; nothing more is claimed of it.
#[verifier::external_body]
fn format_i64(n: i64) -> (r: String)
    ensures
        r@ == decimal_i64(n),
{
    n.to_string()
}

/// The files that the records refer to, each once, in order.
pub open spec fn sources_of(log: Seq<ErrorLogView>) -> Seq<Seq<char>>
    decreases log.len(),
{
    if log.len() == 0 {
        Seq::empty()
    } else {
        let earlier = sources_of(log.drop_last());
        match log.last().file_source {
            Some(path) => inserted(earlier, path),
            None => earlier,
        }
    }
}

/// The files that records refer to are sorted, so none is listed twice,
/// and they are the files of the records and no others.
pub proof fn lemma_sources(log: Seq<ErrorLogView>)
    ensures
        strictly_sorted(sources_of(log)),
        forall|i: int, j: int|
            0 <= i < j < sources_of(log).len() ==> sources_of(log)[i] != sources_of(log)[j],
        forall|path: Seq<char>| #[trigger]
            sources_of(log).contains(path) <==> exists|k: int|
                0 <= k < log.len() && (#[trigger] log[k]).file_source == Some(path),
    decreases log.len(),
{
    if log.len() > 0 {
        let rest = log.drop_last();
        let earlier = sources_of(rest);
        lemma_sources(rest);
        match log.last().file_source {
            Some(p) => {
                lemma_inserted(earlier, p);
            },
            None => {},
        }
        assert forall|path: Seq<char>| #[trigger]
            sources_of(log).contains(path) <==> exists|k: int|
                0 <= k < log.len() && (#[trigger] log[k]).file_source == Some(path) by {
            if sources_of(log).contains(path) {
                if earlier.contains(path) {
                    let k = choose|k: int|
                        0 <= k < rest.len() && (#[trigger] rest[k]).file_source == Some(path);
                    assert(log[k].file_source == Some(path));
                } else {
                    assert(log[log.len() - 1].file_source == Some(path));
                }
            }
            if exists|k: int|
                0 <= k < log.len() && (#[trigger] log[k]).file_source == Some(path) {
                let k = choose|k: int|
                    0 <= k < log.len() && (#[trigger] log[k]).file_source == Some(path);
                if k < log.len() - 1 {
                    assert(rest[k].file_source == Some(path));
                    assert(earlier.contains(path));
                }
            }
        }
    }
    lemma_sorted_is_distinct(sources_of(log));
}

/// A source file and its text.
#[derive(Debug, Clone)]
pub struct FileContents {
    pub path: String,
    pub contents: String,
}

/// A batch of errors with the source files that the errors refer to.
#[derive(Debug, Clone)]
pub struct ExplainStruct {
    pub logs: Vec<ErrorLog>,
    pub file_contents: Vec<FileContents>,
}

/// The paths of a sequence of source files.
pub open spec fn excerpt_paths(excerpts: Seq<FileContents>) -> Seq<Seq<char>> {
    excerpts.map_values(|f: FileContents| f.path@)
}

/// Whether `i` is the place of the first text that is missing.
pub open spec fn first_missing(loaded: Seq<Option<String>>, i: int) -> bool {
    &&& 0 <= i < loaded.len()
    &&& loaded[i] is None
    &&& forall|j: int| 0 <= j < i ==> (#[trigger] loaded[j]) is Some
}

/// Whether the excerpts are the given files with the given texts, one for
/// one.
pub open spec fn excerpts_match(
    excerpts: Seq<FileContents>,
    paths: Seq<Seq<char>>,
    loaded: Seq<Option<String>>,
) -> bool {
    &&& excerpts.len() == paths.len()
    &&& excerpts.len() == loaded.len()
    &&& forall|i: int|
        0 <= i < excerpts.len() ==> {
            &&& (#[trigger] excerpts[i]).path@ == paths[i]
            &&& loaded[i] is Some
            &&& excerpts[i].contents@ == loaded[i].unwrap()@
        }
}

impl ExplainStruct {
    /// Whether the source files are sorted by path, so that no path occurs
    /// twice, and each is a file that a record refers to.
    pub open spec fn wf(&self) -> bool {
        &&& strictly_sorted(excerpt_paths(self.file_contents@))
        &&& forall|i: int|
            0 <= i < self.file_contents@.len() ==> sources_of(records(self.logs@)).contains(
                #[trigger] excerpt_paths(self.file_contents@)[i],
            )
    }

    /// A batch with no source files loaded yet.
    pub fn from(logs: Vec<ErrorLog>) -> (r: ExplainStruct)
        ensures
            r.logs == logs,
            r.file_contents@.len() == 0,
            r.wf(),
    {
        ExplainStruct { logs, file_contents: Vec::new() }
    }

    /// The latest batch of a log text, with no source files loaded yet.
    pub fn try_from(input: String) -> (r: Result<ExplainStruct, LogError>)
        ensures
            match r {
                Ok(e) => extraction_of(input@) == Ok::<Seq<ErrorLogView>, LogError>(
                    records(e.logs@),
                ) && e.file_contents@.len() == 0 && e.wf(),
                Err(e) => extraction_of(input@) == Err::<Seq<ErrorLogView>, LogError>(e),
            },
    {
        match extract_last_batch(input.as_str()) {
            Ok(logs) => Ok(ExplainStruct::from(logs)),
            Err(e) => Err(e),
        }
    }

    /// The files to read for this batch: every file that a record refers to,
    /// once, in order.
    pub fn source_paths(&self) -> (paths: Vec<String>)
        ensures
            texts(paths@) == sources_of(records(self.logs@)),
            strictly_sorted(texts(paths@)),
            forall|i: int, j: int| 0 <= i < j < paths@.len() ==> paths@[i]@ != paths@[j]@,
            forall|k: int|
                0 <= k < self.logs@.len() && (#[trigger] self.logs@[k])@.file_source is Some
                    ==> texts(paths@).contains(self.logs@[k]@.file_source.unwrap()),
    {
        let mut out: Vec<String> = Vec::new();
        let n: usize = self.logs.len();
        let mut k: usize = 0;
        proof {
            assert(records(self.logs@).take(0) =~= Seq::<ErrorLogView>::empty());
            assert(texts(out@) =~= Seq::<Seq<char>>::empty());
        }
        while k < n
            invariant
                n == self.logs@.len(),
                k <= n,
                texts(out@) == sources_of(records(self.logs@).take(k as int)),
            decreases n - k,
        {
            proof {
                let next = records(self.logs@).take(k + 1);
                assert(next.drop_last() =~= records(self.logs@).take(k as int));
                assert(next.last() == self.logs@[k as int]@);
            }
            match &self.logs[k].file_source {
                Some(path) => {
                    insert_sorted(&mut out, path.clone());
                },
                None => {},
            }
            k = k + 1;
        }
        proof {
            let log = records(self.logs@);
            assert(log.take(n as int) =~= log);
            lemma_sources(log);
            assert forall|i: int, j: int| 0 <= i < j < out@.len() implies out@[i]@ != out@[j]@ by {
                assert(texts(out@)[i] == out@[i]@);
                assert(texts(out@)[j] == out@[j]@);
            }
            assert forall|k: int|
                0 <= k < self.logs@.len() && (#[trigger] self.logs@[k])@.file_source is Some implies texts(
                out@,
            ).contains(self.logs@[k]@.file_source.unwrap()) by {
                assert(log[k].file_source == Some(self.logs@[k]@.file_source.unwrap()));
            }
        }
        out
    }

    /// Attaches the source files to the batch. `loaded` holds, for each file
    /// of `source_paths` in turn, its text, or nothing where it could not be
    /// read. One file that could not be read fails the whole, and the error
    /// names the first such file.
    pub fn fetch_file_contents_from_errlogs(self, loaded: Vec<Option<String>>) -> (r: Result<
        ExplainStruct,
        LogError,
    >)
        ensures
            match r {
                Ok(e) => e.logs == self.logs && e.wf() && excerpts_match(
                    e.file_contents@,
                    sources_of(records(self.logs@)),
                    loaded@,
                ),
                Err(e) => if loaded@.len() != sources_of(records(self.logs@)).len() {
                    e == LogError::SourceCountMismatch
                } else {
                    e is SourceUnreadable && exists|i: int| #[trigger]
                        first_missing(loaded@, i) && e->SourceUnreadable_path@ == sources_of(
                            records(self.logs@),
                        )[i]
                },
            },
    {
        let paths = self.source_paths();
        if loaded.len() != paths.len() {
            return Err(LogError::SourceCountMismatch);
        }
        let n: usize = loaded.len();
        let mut at: usize = 0;
        while at < n
            invariant
                n == loaded@.len(),
                n == paths@.len(),
                texts(paths@) == sources_of(records(self.logs@)),
                at <= n,
                forall|j: int| 0 <= j < at ==> (#[trigger] loaded@[j]) is Some,
            decreases n - at,
        {
            if loaded[at].is_none() {
                let path = paths[at].clone();
                proof {
                    assert(first_missing(loaded@, at as int));
                    assert(texts(paths@)[at as int] == path@);
                }
                return Err(LogError::SourceUnreadable { path });
            }
            at = at + 1;
        }
        let mut paths = paths;
        let mut left = loaded;
        let ghost all = texts(paths@);
        let ghost all_logs = records(self.logs@);
        let mut files: Vec<FileContents> = Vec::new();
        let mut i: usize = n;
        while i > 0
            invariant
                n == loaded@.len(),
                n == all.len(),
                all == sources_of(records(self.logs@)),
                forall|j: int| 0 <= j < n ==> (#[trigger] loaded@[j]) is Some,
                i <= n,
                paths@.len() == i,
                texts(paths@) == all.take(i as int),
                left@ == loaded@.take(i as int),
                files@.len() == n - i,
                forall|k: int|
                    0 <= k < files@.len() ==> {
                        &&& (#[trigger] files@[k]).path@ == all[n - 1 - k]
                        &&& loaded@[n - 1 - k] is Some
                        &&& files@[k].contents@ == loaded@[n - 1 - k].unwrap()@
                    },
            decreases i,
        {
            let ghost before = texts(paths@);
            let path = paths.pop().unwrap();
            let text = left.pop().unwrap();
            proof {
                assert(before[i - 1] == path@);
                assert(texts(paths@) =~= all.take(i - 1));
                assert(text == loaded@[i - 1]);
                assert(left@ =~= loaded@.take(i - 1));
            }
            i = i - 1;
            let contents = text.unwrap();
            let ghost earlier = files@;
            let file = FileContents { path, contents };
            files.push(file);
            proof {
                assert(file.path@ == all[i as int]);
                assert forall|k: int| 0 <= k < files@.len() implies {
                    &&& (#[trigger] files@[k]).path@ == all[n - 1 - k]
                    &&& loaded@[n - 1 - k] is Some
                    &&& files@[k].contents@ == loaded@[n - 1 - k].unwrap()@
                } by {
                    if k < earlier.len() {
                        assert(files@[k] == earlier[k]);
                    }
                }
            }
        }
        let mut ordered: Vec<FileContents> = Vec::new();
        while files.len() > 0
            invariant
                n == loaded@.len(),
                n == all.len(),
                all == sources_of(records(self.logs@)),
                files@.len() + ordered@.len() == n,
                forall|k: int|
                    0 <= k < files@.len() ==> {
                        &&& (#[trigger] files@[k]).path@ == all[n - 1 - k]
                        &&& loaded@[n - 1 - k] is Some
                        &&& files@[k].contents@ == loaded@[n - 1 - k].unwrap()@
                    },
                forall|k: int|
                    0 <= k < ordered@.len() ==> {
                        &&& (#[trigger] ordered@[k]).path@ == all[k]
                        &&& loaded@[k] is Some
                        &&& ordered@[k].contents@ == loaded@[k].unwrap()@
                    },
            decreases files@.len(),
        {
            let file = files.pop().unwrap();
            ordered.push(file);
        }
        proof {
            lemma_sources(all_logs);
            assert(excerpt_paths(ordered@) =~= all);
            assert forall|i: int| 0 <= i < ordered@.len() implies all.contains(
                #[trigger] excerpt_paths(ordered@)[i],
            ) by {
                assert(all[i] == excerpt_paths(ordered@)[i]);
            }
        }
        Ok(ExplainStruct { logs: self.logs, file_contents: ordered })
    }

    /// The messages of the batch, latest first.
    pub fn fetch_only_error_messages(&self) -> (messages: Vec<String>)
        ensures
            messages@.len() == self.logs@.len(),
            forall|k: int|
                0 <= k < messages@.len() ==> (#[trigger] messages@[k])@
                    == self.logs@[k]@.error_message,
    {
        let mut out: Vec<String> = Vec::new();
        let n: usize = self.logs.len();
        let mut k: usize = 0;
        while k < n
            invariant
                n == self.logs@.len(),
                k <= n,
                out@.len() == k,
                forall|j: int|
                    0 <= j < out@.len() ==> (#[trigger] out@[j])@ == self.logs@[j]@.error_message,
            decreases n - k,
        {
            out.push(self.logs[k].error_message.clone());
            k = k + 1;
        }
        out
    }
}

/// The log of failures: where it is kept and how it is read and written.
pub struct ErrorLogManager;

impl ErrorLogManager {
    /// The name of the log file inside the tool's directory.
    pub fn file(&self) -> (name: String)
        ensures
            name@ == "logs.txt"@,
    {
        String::from_str("logs.txt")
    }

    /// The latest batch of errors in the text of the log file.
    pub fn fetch_last_error_from_file(&self, contents: &str) -> (r: Result<
        Vec<ErrorLog>,
        LogError,
    >)
        ensures
            match r {
                Ok(batch) => extraction_of(contents@) == Ok::<Seq<ErrorLogView>, LogError>(
                    records(batch@),
                ),
                Err(e) => extraction_of(contents@) == Err::<Seq<ErrorLogView>, LogError>(e),
            },
            r is Ok ==> forall|k: int|
                0 <= k < r.unwrap()@.len() ==> is_error((#[trigger] r.unwrap()@[k])@),
    {
        extract_last_batch(contents)
    }

    /// The line to append for an error that has no code and no place in a
    /// file: the time, the kind `error`, and the message.
    pub fn generic_error_line(&self, time: i64, to_add: &str) -> (line: String)
        ensures
            line@ == decimal_i64(time) + "||error||none||"@ + to_add@
                + "||none||none||none\n"@,
    {
        let mut line = format_i64(time);
        line.append("||error||none||");
        line.append(to_add);
        line.append("||none||none||none\n");
        line
    }
}

} // verus!
