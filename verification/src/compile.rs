//! Compilation runs: what is compiled with which command, and how the outcome
//! of each run sorts the compilables into compiled and failed ones.
use vstd::prelude::*;
use vstd::string::*;
use crate::commands::{command_renders, command_words, try_master_note_to_cmd, try_note_to_cmd};
use crate::helpers::{kept, lemma_kept_prefix_flags};
use crate::helpers::string::string_views;
use crate::masternote::{master_note_file, MasterNote};
use crate::note::{note_file_name, Note};
use crate::subjects::file_name_of;

verus! {

/// Something that compiles into one document: a note or a master note.
pub enum CompilableObject {
    Note(Note),
    MasterNote(MasterNote),
}

/// The file that the compilation of `c` works on.
pub open spec fn compilable_file(c: CompilableObject) -> Seq<char> {
    match c {
        CompilableObject::Note(n) => note_file_name(n@),
        CompilableObject::MasterNote(_) => master_note_file(),
    }
}

/// Whether `c` has a name to be reported under: a master note needs a subject
/// whose last component is a plain name.
pub open spec fn compilable_has_name(c: CompilableObject) -> bool {
    match c {
        CompilableObject::Note(_) => true,
        CompilableObject::MasterNote(m) => file_name_of(m@.0) is Some,
    }
}

/// The name under which `c` is reported: the title of a note, the name of the
/// subject of a master note.
pub open spec fn compilable_name(c: CompilableObject) -> Seq<char> {
    match c {
        CompilableObject::Note(n) => n@,
        CompilableObject::MasterNote(m) => file_name_of(m@.0)->0,
    }
}

/// The program and the arguments that compile `c` with the command template
/// `cmd`, where the data made of the file name reads as TOML and the rendering
/// gives at least one word.
pub open spec fn compilable_command(c: CompilableObject, cmd: Seq<char>) -> Option<
    (Seq<char>, Seq<Seq<char>>),
> {
    let file = compilable_file(c);
    if command_renders(cmd, file) {
        Some((command_words(cmd, file)[0], command_words(cmd, file).drop_first()))
    } else {
        None
    }
}

/// Each compilable lands in exactly one of the two lists that `finish` gives:
/// together they hold every compilable, each as often as the run had it.
pub proof fn law_finish_partitions<T>(items: Seq<T>, flags: Seq<bool>)
    requires
        flags.len() == items.len(),
    ensures
        kept(items, flags, true).len() + kept(items, flags, false).len() == items.len(),
        kept(items, flags, true).to_multiset().add(kept(items, flags, false).to_multiset())
            =~= items.to_multiset(),
    decreases items.len(),
{
    broadcast use vstd::seq_lib::group_to_multiset_ensures;
    if items.len() > 0 {
        let rest = items.drop_last();
        law_finish_partitions(rest, flags.take(rest.len() as int));
        lemma_kept_prefix_flags(rest, flags, true);
        lemma_kept_prefix_flags(rest, flags, false);
        assert(items =~= rest.push(items.last()));
    }
}

impl CompilableObject {
    /// The program and the arguments that compile this object with the
    /// command template `cmd`; `None` where they cannot be had.
    pub fn to_command(&self, cmd: &str) -> (r: Option<(String, Vec<String>)>)
        ensures
            match r {
                Some(c) => compilable_command(*self, cmd@) == Some((c.0@, string_views(c.1@))),
                None => compilable_command(*self, cmd@) is None,
            },
    {
        match self {
            CompilableObject::Note(n) => try_note_to_cmd(n, cmd),
            CompilableObject::MasterNote(m) => {
                try_master_note_to_cmd(m, cmd)
            },
        }
    }

    /// The name under which this object is reported.
    pub fn name(&self) -> (r: String)
        requires
            compilable_has_name(*self),
        ensures
            r@ == compilable_name(*self),
    {
        match self {
            CompilableObject::Note(n) => n.title(),
            CompilableObject::MasterNote(m) => m.subject().name(),
        }
    }
}

/// The result of a compilation run: the compilables whose runs succeeded and
/// those whose runs failed.
pub struct CompileResult {
    pub path: String,
    pub compiled: Vec<CompilableObject>,
    pub failed: Vec<CompilableObject>,
}

/// All compiled objects of `results`, one result after the other.
pub open spec fn all_compiled(results: Seq<CompileResult>) -> Seq<CompilableObject>
    decreases results.len(),
{
    if results.len() == 0 {
        Seq::empty()
    } else {
        all_compiled(results.drop_last()) + results.last().compiled@
    }
}

/// All failed objects of `results`, one result after the other.
pub open spec fn all_failed(results: Seq<CompileResult>) -> Seq<CompilableObject>
    decreases results.len(),
{
    if results.len() == 0 {
        Seq::empty()
    } else {
        all_failed(results.drop_last()) + results.last().failed@
    }
}

/// Gathering results loses no object and keeps their order: the objects of
/// two lists of results put one after the other are those of the first list
/// followed by those of the second, and every object of every part is among
/// those of the whole.
pub proof fn law_sum_keeps_every_object(rs: Seq<CompileResult>, qs: Seq<CompileResult>)
    ensures
        all_compiled(rs + qs) == all_compiled(rs) + all_compiled(qs),
        all_failed(rs + qs) == all_failed(rs) + all_failed(qs),
        forall|i: int, j: int|
            0 <= i < rs.len() && 0 <= j < rs[i].failed@.len() ==> all_failed(rs).contains(
                #[trigger] rs[i].failed@[j],
            ),
        forall|i: int, j: int|
            0 <= i < rs.len() && 0 <= j < rs[i].compiled@.len() ==> all_compiled(rs).contains(
                #[trigger] rs[i].compiled@[j],
            ),
    decreases qs.len() + rs.len(),
{
    if qs.len() == 0 {
        assert(rs + qs =~= rs);
        assert(all_compiled(rs) + all_compiled(qs) =~= all_compiled(rs));
        assert(all_failed(rs) + all_failed(qs) =~= all_failed(rs));
    } else {
        law_sum_keeps_every_object(rs, qs.drop_last());
        assert((rs + qs).drop_last() =~= rs + qs.drop_last());
        assert((rs + qs).last() == qs.last());
        assert(all_compiled(rs) + all_compiled(qs) =~= all_compiled(rs) + all_compiled(qs.drop_last())
            + qs.last().compiled@);
        assert(all_failed(rs) + all_failed(qs) =~= all_failed(rs) + all_failed(qs.drop_last())
            + qs.last().failed@);
    }
    if rs.len() > 0 {
        let e = Seq::<CompileResult>::empty();
        law_sum_keeps_every_object(rs.drop_last(), e);
        assert forall|i: int, j: int|
            0 <= i < rs.len() && 0 <= j < rs[i].failed@.len() implies all_failed(rs).contains(
                #[trigger] rs[i].failed@[j],
            ) by {
            let a = all_failed(rs.drop_last());
            if i < rs.len() - 1 {
                assert(rs.drop_last()[i] == rs[i]);
                let k = choose|k: int| 0 <= k < a.len() && a[k] == rs[i].failed@[j];
                assert(all_failed(rs)[k] == a[k]);
            } else {
                assert(all_failed(rs)[a.len() + j] == rs[i].failed@[j]);
            }
        }
        assert forall|i: int, j: int|
            0 <= i < rs.len() && 0 <= j < rs[i].compiled@.len() implies all_compiled(rs).contains(
                #[trigger] rs[i].compiled@[j],
            ) by {
            let a = all_compiled(rs.drop_last());
            if i < rs.len() - 1 {
                assert(rs.drop_last()[i] == rs[i]);
                let k = choose|k: int| 0 <= k < a.len() && a[k] == rs[i].compiled@[j];
                assert(all_compiled(rs)[k] == a[k]);
            } else {
                assert(all_compiled(rs)[a.len() + j] == rs[i].compiled@[j]);
            }
        }
    }
}

impl CompileResult {
    /// An empty result for the given path.
    pub fn new(path: &str) -> (r: Self)
        ensures
            r.path@ == path@,
            r.compiled@.len() == 0,
            r.failed@.len() == 0,
    {
        Self { path: String::from_str(path), compiled: Vec::new(), failed: Vec::new() }
    }

    /// Gathers several results into one: their compiled and failed objects
    /// one result after the other, and the path of the last one (empty when
    /// there is none).
    pub fn sum(results: Vec<CompileResult>) -> (r: Self)
        ensures
            r.path@ == (if results@.len() == 0 {
                Seq::<char>::empty()
            } else {
                results@.last().path@
            }),
            r.compiled@ == all_compiled(results@),
            r.failed@ == all_failed(results@),
    {
        let ghost all = results@;
        let mut rest = results;
        let mut acc = CompileResult::new("");
        proof {
            reveal_strlit("");
        }
        let ghost mut taken: int = 0;
        while rest.len() > 0
            invariant
                0 <= taken <= all.len(),
                rest@ == all.skip(taken),
                acc.compiled@ == all_compiled(all.take(taken)),
                acc.failed@ == all_failed(all.take(taken)),
                acc.path@ == (if taken == 0 {
                    Seq::<char>::empty()
                } else {
                    all[taken - 1].path@
                }),
            decreases rest.len(),
        {
            let mut item = rest.remove(0);
            proof {
                assert(item == all[taken]);
                assert(all.take(taken + 1).drop_last() =~= all.take(taken));
                assert(all.skip(taken).skip(1) =~= all.skip(taken + 1));
            }
            acc.path = item.path;
            acc.compiled.append(&mut item.compiled);
            acc.failed.append(&mut item.failed);
            proof {
                taken = taken + 1;
            }
        }
        proof {
            assert(all.take(taken) =~= all);
        }
        acc
    }
}

/// The parameters of a compilation run: where it runs, what it compiles and
/// with which command.
pub struct CompilationEnvironment {
    pub path: String,
    pub compilables: Vec<CompilableObject>,
    pub command: String,
    pub thread_count: i16,
}

/// `v` with its items in the opposite order.
fn reversed<T>(v: Vec<T>) -> (r: Vec<T>)
    ensures
        r@ == v@.reverse(),
{
    let ghost orig = v@;
    let mut src = v;
    let mut r: Vec<T> = Vec::new();
    while src.len() > 0
        invariant
            src@ == orig.take(src@.len() as int),
            src@.len() <= orig.len(),
            r@ == orig.skip(src@.len() as int).reverse(),
        decreases src.len(),
    {
        let ghost n: int = src@.len() as int;
        let x = src.pop().unwrap();
        proof {
            assert(x == orig[n - 1]);
            assert(orig.take(n).drop_last() =~= orig.take(n - 1));
        }
        r.push(x);
        proof {
            assert(orig.skip(n - 1).reverse() =~= orig.skip(n).reverse().push(orig[n - 1]));
        }
    }
    proof {
        assert(orig.skip(0) =~= orig);
    }
    r
}

impl Default for CompilationEnvironment {
    /// An environment with an empty path, nothing to compile, an empty command
    /// and one thread.
    fn default() -> (r: Self)
        ensures
            r.path@.len() == 0,
            r.compilables@.len() == 0,
            r.command@.len() == 0,
            r.thread_count == 1,
    {
        Self { path: String::new(), compilables: Vec::new(), command: String::new(), thread_count: 1 }
    }
}

impl CompilationEnvironment {
    /// Create a new compilation environment that runs at `path`.
    pub fn new(path: &str) -> (r: Self)
        ensures
            r.path@ == path@,
            r.compilables@.len() == 0,
            r.command@.len() == 0,
            r.thread_count == 1,
    {
        let mut env = Self::default();
        env.path = String::from_str(path);
        env
    }

    /// Set the objects to be compiled. They are held in the opposite order,
    /// as the compilation takes them from the back.
    pub fn compilables(&mut self, notes: Vec<CompilableObject>) -> (r: &mut Self)
        ensures
            r.compilables@ == notes@.reverse(),
            r.path == old(self).path,
            r.command == old(self).command,
            r.thread_count == old(self).thread_count,
            *final(self) == *final(r),
    {
        self.compilables = reversed(notes);
        self
    }

    /// Set the command template.
    pub fn command(&mut self, command: &str) -> (r: &mut Self)
        ensures
            r.command@ == command@,
            r.path == old(self).path,
            r.compilables == old(self).compilables,
            r.thread_count == old(self).thread_count,
            *final(self) == *final(r),
    {
        self.command = String::from_str(command);
        self
    }

    /// Set the thread count.
    pub fn thread_count(&mut self, thread_count: i16) -> (r: &mut Self)
        ensures
            r.thread_count == thread_count,
            r.path == old(self).path,
            r.compilables == old(self).compilables,
            r.command == old(self).command,
            *final(self) == *final(r),
    {
        self.thread_count = thread_count;
        self
    }

    /// The command of each compilable, in the order they are held.
    pub fn commands(&self) -> (r: Vec<Option<(String, Vec<String>)>>)
        ensures
            r@.len() == self.compilables@.len(),
            forall|i: int|
                0 <= i < r@.len() ==> match #[trigger] r@[i] {
                    Some(c) => compilable_command(self.compilables@[i], self.command@) == Some(
                        (c.0@, string_views(c.1@)),
                    ),
                    None => compilable_command(self.compilables@[i], self.command@) is None,
                },
    {
        let mut r: Vec<Option<(String, Vec<String>)>> = Vec::new();
        let mut i: usize = 0;
        while i < self.compilables.len()
            invariant
                i <= self.compilables@.len(),
                r@.len() == i,
                forall|j: int|
                    0 <= j < i ==> match #[trigger] r@[j] {
                        Some(c) => compilable_command(self.compilables@[j], self.command@) == Some(
                            (c.0@, string_views(c.1@)),
                        ),
                        None => compilable_command(self.compilables@[j], self.command@) is None,
                    },
            decreases self.compilables@.len() - i,
        {
            let c = self.compilables[i].to_command(self.command.as_str());
            r.push(c);
            i += 1;
        }
        r
    }

    /// Ends the run: `outcomes[i]` tells whether the run of the i-th
    /// compilable (in the order they are held) succeeded. The compiled and the
    /// failed ones keep that order.
    pub fn finish(self, outcomes: &Vec<bool>) -> (r: CompileResult)
        requires
            outcomes@.len() == self.compilables@.len(),
        ensures
            r.path == self.path,
            r.compiled@ == kept(self.compilables@, outcomes@, true),
            r.failed@ == kept(self.compilables@, outcomes@, false),
    {
        let ghost all = self.compilables@;
        let total = self.compilables.len();
        let mut rest = self.compilables;
        let mut compiled: Vec<CompilableObject> = Vec::new();
        let mut failed: Vec<CompilableObject> = Vec::new();
        let mut i: usize = 0;
        while rest.len() > 0
            invariant
                i <= all.len(),
                all.len() == total,
                outcomes@.len() == all.len(),
                rest@ == all.skip(i as int),
                compiled@ == kept(all.take(i as int), outcomes@, true),
                failed@ == kept(all.take(i as int), outcomes@, false),
            decreases rest.len(),
        {
            let item = rest.remove(0);
            proof {
                assert(item == all[i as int]);
                assert(all.take(i + 1).drop_last() =~= all.take(i as int));
                assert(all.skip(i as int).skip(1) =~= all.skip(i + 1));
            }
            if outcomes[i] {
                compiled.push(item);
            } else {
                failed.push(item);
            }
            i += 1;
        }
        proof {
            assert(all.take(i as int) =~= all);
        }
        CompileResult { path: self.path, compiled, failed }
    }
}

} // verus!
