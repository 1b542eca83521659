//! The Hardhat framework: what it accepts, what it found, and what the
//! reference run showed.
use crate::ast::Module;
use crate::ignore::{is_str, Config};
use crate::source_map::SourceMap;
use crate::span::{SourceFileView, Span, SpanView};
use crate::stdout::{it_message_of_line, reported_message};
use crate::trace::walk_module;
use crate::visitor::{analyze, reported, AnalysisError, Candidate, CandidateView};
use vstd::pervasive::unreached;
use vstd::prelude::*;
use vstd::string::StringExecFns;

verus! {

/// What is known of a test case's message after the reference run.
#[derive(Clone, Copy, Debug, PartialEq, Eq, Structural)]
pub enum ItMessageState {
    /// The reference run did not show the message.
    NotFound,
    /// The reference run showed the message.
    Found,
    /// The reference run did not show the message, and a warning said so.
    WarningEmitted,
}

impl Default for ItMessageState {
    fn default() -> (state: Self)
        ensures
            state == ItMessageState::NotFound,
    {
        ItMessageState::NotFound
    }
}

/// The state of one message of one test file.
#[derive(Debug)]
pub struct StateEntry {
    pub test_file: String,
    pub it_message: String,
    pub state: ItMessageState,
}

/// What to do for a candidate.
#[derive(Debug)]
pub enum ExecStep {
    /// Run the test command with these arguments.
    Run { args: Vec<String> },
    /// Warn that the reference run did not show this message, and run
    /// nothing.
    Warn { it_message: String },
    /// Run nothing.
    Skip,
}

/// The message recorded last for `span` in `entries`.
pub open spec fn message_at(entries: Seq<CandidateView>, span: SpanView) -> Option<Seq<char>>
    decreases entries.len(),
{
    if entries.len() == 0 {
        None
    } else if entries.last().span == span {
        Some(entries.last().it_message)
    } else {
        message_at(entries.drop_last(), span)
    }
}

/// The state recorded last for the message `it_message` of `test_file` in
/// `entries`; `NotFound` where none is.
pub open spec fn state_at(entries: Seq<StateEntry>, test_file: Seq<char>, it_message: Seq<char>)
    -> ItMessageState
    decreases entries.len(),
{
    if entries.len() == 0 {
        ItMessageState::NotFound
    } else if entries.last().test_file@ == test_file && entries.last().it_message@ == it_message {
        entries.last().state
    } else {
        state_at(entries.drop_last(), test_file, it_message)
    }
}

/// `file` is among `files`.
pub open spec fn listed(files: Seq<String>, file: Seq<char>) -> bool {
    exists|i: int| 0 <= i < files.len() && (#[trigger] files[i])@ == file
}

/// After one more file, the files listed are that file and those listed
/// before.
proof fn lemma_listed_push(files: Seq<String>, added: String, file: Seq<char>)
    ensures
        listed(files.push(added), file) == (file == added@ || listed(files, file)),
{
    let after = files.push(added);
    if file == added@ {
        assert(after[files.len() as int]@ == file);
    } else if listed(files, file) {
        let i = choose|i: int| 0 <= i < files.len() && (#[trigger] files[i])@ == file;
        assert(after[i]@ == file);
    } else if listed(after, file) {
        let i = choose|i: int| 0 <= i < after.len() && (#[trigger] after[i])@ == file;
        assert(files[i]@ == file);
    }
}

/// What the candidates of `candidates` stand for.
pub open spec fn views(candidates: Seq<Candidate>) -> Seq<CandidateView> {
    Seq::new(candidates.len(), |i: int| candidates[i]@)
}

/// The state of message `it_message` of `test_file` after the lines of
/// `lines` from index `from` on were read, when it was `state` before: a
/// line that reports the message makes it `Found`.
pub open spec fn state_after_lines(
    state: ItMessageState,
    lines: Seq<String>,
    from: int,
    it_message: Seq<char>,
) -> ItMessageState
    decreases lines.len() - from,
{
    if 0 <= from < lines.len() {
        let next = if reported_message(lines[from]@) == Some(it_message) {
            ItMessageState::Found
        } else {
            state
        };
        state_after_lines(next, lines, from + 1, it_message)
    } else {
        state
    }
}

/// The Hardhat framework with TypeScript tests.
pub struct HardhatTs {
    span_it_message_map: Vec<Candidate>,
    dry_run_files: Vec<String>,
    it_message_states: Vec<StateEntry>,
}

impl HardhatTs {
    /// The candidates recorded, oldest first.
    pub closed spec fn recorded(&self) -> Seq<CandidateView> {
        views(self.span_it_message_map@)
    }

    /// The message of the test case around `span`, if `span` was recorded.
    pub open spec fn spec_message_for(&self, span: SpanView) -> Option<Seq<char>> {
        message_at(self.recorded(), span)
    }

    /// A reference run of `test_file` was recorded.
    pub closed spec fn spec_knows_file(&self, test_file: Seq<char>) -> bool {
        listed(self.dry_run_files@, test_file)
    }

    /// The state of the message `it_message` of `test_file`.
    pub closed spec fn spec_state(&self, test_file: Seq<char>, it_message: Seq<char>)
        -> ItMessageState {
        state_at(self.it_message_states@, test_file, it_message)
    }

    /// Whether a project is a Hardhat project with TypeScript tests: whether
    /// `hardhat.config.ts` is among `root_entries`, the names of what lies
    /// directly under the project's root.
    pub fn applicable(root_entries: &Vec<String>) -> (r: bool)
        ensures
            r == exists|i: int|
                0 <= i < root_entries@.len() && (#[trigger] root_entries@[i])@
                    == "hardhat.config.ts"@,
    {
        let mut i: usize = 0;
        while i < root_entries.len()
            invariant
                i <= root_entries.len(),
                forall|k: int| 0 <= k < i ==> (#[trigger] root_entries@[k])@ != "hardhat.config.ts"@,
            decreases root_entries.len() - i,
        {
            if is_str(&root_entries[i], "hardhat.config.ts") {
                return true;
            }
            i = i + 1;
        }
        false
    }

    /// A framework that has recorded nothing.
    pub fn new() -> (framework: HardhatTs)
        ensures
            framework.recorded().len() == 0,
            forall|file: Seq<char>| !framework.spec_knows_file(file),
            forall|file: Seq<char>, message: Seq<char>|
                framework.spec_state(file, message) == ItMessageState::NotFound,
    {
        HardhatTs {
            span_it_message_map: Vec::new(),
            dry_run_files: Vec::new(),
            it_message_states: Vec::new(),
        }
    }

    /// Whether the walk of a project's `test` directory keeps an entry:
    /// every directory, and every file with the extension `ts`.
    pub fn keeps_entry(is_file: bool, extension: Option<&str>) -> (r: bool)
        ensures
            r == (!is_file || (extension matches Some(e) && e@ == "ts"@)),
    {
        if !is_file {
            return true;
        }
        match extension {
            Some(e) => {
                let e = String::from_str(e);
                is_str(&e, "ts")
            },
            None => false,
        }
    }

    /// Records that `span` lies in the test case with message `it_message`.
    pub fn set_span_it_message(&mut self, span: &Span, it_message: String)
        ensures
            final(self).recorded() == old(self).recorded().push(
                CandidateView { span: span@, it_message: it_message@ },
            ),
            final(self).spec_message_for(span@) == Some(it_message@),
            forall|other: SpanView|
                other != span@ ==> final(self).spec_message_for(other) == old(
                    self,
                ).spec_message_for(other),
            forall|file: Seq<char>| final(self).spec_knows_file(file) == old(self).spec_knows_file(file),
            forall|file: Seq<char>, message: Seq<char>|
                final(self).spec_state(file, message) == old(self).spec_state(file, message),
    {
        let ghost before = self.recorded();
        self.span_it_message_map.push(Candidate { span: span.duplicate(), it_message });
        proof {
            let added = CandidateView { span: span@, it_message: it_message@ };
            assert(self.recorded() =~= before.push(added));
            assert(before.push(added).drop_last() =~= before);
        }
    }

    /// The message of the test case around `span`, if `span` was recorded.
    pub fn message_for(&self, span: &Span) -> (r: Option<String>)
        ensures
            r matches Some(m) ==> self.spec_message_for(span@) == Some(m@),
            r is None ==> self.spec_message_for(span@) is None,
    {
        let mut i: usize = self.span_it_message_map.len();
        proof {
            assert(self.recorded().take(i as int) =~= self.recorded());
        }
        while i > 0
            invariant
                i <= self.span_it_message_map.len(),
                self.spec_message_for(span@) == message_at(self.recorded().take(i as int), span@),
            decreases i,
        {
            proof {
                let upto = self.recorded().take(i as int);
                assert(upto.drop_last() =~= self.recorded().take(i - 1));
                assert(upto.last() == self.span_it_message_map@[i - 1]@);
            }
            i = i - 1;
            if self.span_it_message_map[i].span.same_as(span) {
                return Some(self.span_it_message_map[i].it_message.clone());
            }
        }
        None
    }

    /// Analyzes `module`, the syntax tree of the file `test_file` of the
    /// project at `root`, records the candidates found, and returns their
    /// spans in the order of the walk.
    pub fn visit_file(
        &mut self,
        config: &Config,
        source_map: &SourceMap,
        root: String,
        test_file: String,
        module: &Module,
    ) -> (r: Result<Vec<Span>, AnalysisError>)
        ensures
            forall|file: Seq<char>| final(self).spec_knows_file(file) == old(self).spec_knows_file(file),
            forall|file: Seq<char>, message: Seq<char>|
                final(self).spec_state(file, message) == old(self).spec_state(file, message),
            match r {
                Ok(spans) => {
                    &&& module.wf()
                    &&& module.fits(*source_map)
                    &&& !walk_module(*config, *module).nested
                    &&& exists|candidates: Seq<Candidate>|
                        {
                            &&& #[trigger] reported(
                                candidates,
                                *source_map,
                                SourceFileView { root: root@, path: test_file@ },
                                walk_module(*config, *module),
                            )
                            &&& final(self).recorded() == old(self).recorded() + views(candidates)
                            &&& spans@.len() == candidates.len()
                            &&& forall|i: int|
                                0 <= i < spans@.len() ==> (#[trigger] spans@[i])@
                                    == candidates[i].span@ && spans@[i].ordered()
                        }
                },
                Err(AnalysisError::Malformed) => !module.wf() && final(self).recorded() == old(
                    self,
                ).recorded(),
                Err(AnalysisError::OutOfSource) => module.wf() && !module.fits(*source_map)
                    && final(self).recorded() == old(self).recorded(),
                Err(AnalysisError::NestedTestCase) => module.wf() && module.fits(*source_map)
                    && walk_module(*config, *module).nested && final(self).recorded() == old(
                    self,
                ).recorded(),
            },
    {
        let candidates = match analyze(config, source_map, root, test_file, module) {
            Ok(candidates) => candidates,
            Err(error) => {
                return Err(error);
            },
        };
        let ghost before = *self;
        let mut spans: Vec<Span> = Vec::new();
        let mut i: usize = 0;
        while i < candidates.len()
            invariant
                i <= candidates.len(),
                spans@.len() == i,
                forall|k: int|
                    0 <= k < i ==> (#[trigger] spans@[k])@ == candidates@[k].span@
                        && spans@[k].ordered(),
                forall|k: int| 0 <= k < candidates@.len() ==> (#[trigger] candidates@[k]).span.ordered(),
                self.recorded() == before.recorded() + views(candidates@.take(i as int)),
                forall|file: Seq<char>| self.spec_knows_file(file) == before.spec_knows_file(file),
                forall|file: Seq<char>, message: Seq<char>|
                    self.spec_state(file, message) == before.spec_state(file, message),
            decreases candidates.len() - i,
        {
            let ghost so_far = self.recorded();
            self.set_span_it_message(&candidates[i].span, candidates[i].it_message.clone());
            spans.push(candidates[i].span.duplicate());
            proof {
                assert(views(candidates@.take(i + 1)) =~= views(candidates@.take(i as int)).push(
                    candidates@[i as int]@,
                ));
                assert(self.recorded() =~= before.recorded() + views(candidates@.take(i + 1)));
            }
            i = i + 1;
        }
        proof {
            assert(candidates@.take(candidates.len() as int) =~= candidates@);
        }
        Ok(spans)
    }

    /// Whether a reference run of `test_file` was recorded.
    pub fn knows_file(&self, test_file: &String) -> (r: bool)
        ensures
            r == self.spec_knows_file(test_file@),
    {
        let mut i: usize = 0;
        while i < self.dry_run_files.len()
            invariant
                i <= self.dry_run_files.len(),
                forall|k: int| 0 <= k < i ==> (#[trigger] self.dry_run_files@[k])@ != test_file@,
            decreases self.dry_run_files.len() - i,
        {
            if self.dry_run_files[i] == *test_file {
                return true;
            }
            i = i + 1;
        }
        false
    }

    /// The state of the message `it_message` of `test_file`.
    pub fn state(&self, test_file: &String, it_message: &String) -> (r: ItMessageState)
        ensures
            r == self.spec_state(test_file@, it_message@),
    {
        let mut i: usize = self.it_message_states.len();
        proof {
            assert(self.it_message_states@.take(i as int) =~= self.it_message_states@);
        }
        while i > 0
            invariant
                i <= self.it_message_states.len(),
                self.spec_state(test_file@, it_message@) == state_at(
                    self.it_message_states@.take(i as int),
                    test_file@,
                    it_message@,
                ),
            decreases i,
        {
            proof {
                let upto = self.it_message_states@.take(i as int);
                assert(upto.drop_last() =~= self.it_message_states@.take(i - 1));
            }
            i = i - 1;
            if self.it_message_states[i].test_file == *test_file
                && self.it_message_states[i].it_message == *it_message {
                return self.it_message_states[i].state;
            }
        }
        ItMessageState::NotFound
    }

    /// Sets the state of the message `it_message` of `test_file`.
    fn set_state(&mut self, test_file: &String, it_message: String, state: ItMessageState)
        ensures
            final(self).spec_state(test_file@, it_message@) == state,
            forall|file: Seq<char>, message: Seq<char>|
                !(file == test_file@ && message == it_message@) ==> final(self).spec_state(
                    file,
                    message,
                ) == old(self).spec_state(file, message),
            forall|file: Seq<char>| final(self).spec_knows_file(file) == old(self).spec_knows_file(file),
            final(self).recorded() == old(self).recorded(),
    {
        let ghost before = self.it_message_states@;
        self.it_message_states.push(
            StateEntry { test_file: test_file.clone(), it_message, state },
        );
        proof {
            assert(self.it_message_states@.drop_last() =~= before);
        }
    }

    /// Records a reference run of `test_file` that printed `lines`: each
    /// message that a line reports is `Found` from now on.
    pub fn record_dry_run(&mut self, test_file: &String, lines: &Vec<String>)
        ensures
            final(self).recorded() == old(self).recorded(),
            forall|file: Seq<char>|
                #![trigger final(self).spec_knows_file(file)]
                final(self).spec_knows_file(file) == (file == test_file@ || old(
                    self,
                ).spec_knows_file(file)),
            forall|file: Seq<char>, message: Seq<char>|
                file != test_file@ ==> final(self).spec_state(file, message) == old(
                    self,
                ).spec_state(file, message),
            forall|message: Seq<char>|
                #![trigger final(self).spec_state(test_file@, message)]
                final(self).spec_state(test_file@, message) == state_after_lines(
                    old(self).spec_state(test_file@, message),
                    lines@,
                    0,
                    message,
                ),
    {
        let ghost before = *self;
        let ghost files = self.dry_run_files@;
        self.dry_run_files.push(test_file.clone());
        proof {
            assert forall|file: Seq<char>|
                #![trigger self.spec_knows_file(file)]
                self.spec_knows_file(file) == (file == test_file@ || before.spec_knows_file(
                    file,
                )) by {
                lemma_listed_push(files, self.dry_run_files@[files.len() as int], file);
                assert(self.dry_run_files@ =~= files.push(self.dry_run_files@[files.len() as int]));
            }
        }
        let mut i: usize = 0;
        while i < lines.len()
            invariant
                i <= lines.len(),
                self.recorded() == before.recorded(),
                forall|file: Seq<char>|
                    #![trigger self.spec_knows_file(file)]
                    self.spec_knows_file(file) == (file == test_file@ || before.spec_knows_file(
                        file,
                    )),
                forall|file: Seq<char>, message: Seq<char>|
                    file != test_file@ ==> self.spec_state(file, message) == before.spec_state(
                        file,
                        message,
                    ),
                forall|message: Seq<char>|
                    #![trigger self.spec_state(test_file@, message)]
                    state_after_lines(self.spec_state(test_file@, message), lines@, i as int, message)
                        == state_after_lines(
                        before.spec_state(test_file@, message),
                        lines@,
                        0,
                        message,
                    ),
            decreases lines.len() - i,
        {
            let ghost prev = *self;
            match it_message_of_line(lines[i].as_str()) {
                Some(message) => {
                    self.set_state(test_file, message, ItMessageState::Found);
                },
                None => {},
            }
            proof {
                assert forall|message: Seq<char>|
                    #![trigger self.spec_state(test_file@, message)]
                    state_after_lines(
                        self.spec_state(test_file@, message),
                        lines@,
                        i + 1,
                        message,
                    ) == state_after_lines(
                        before.spec_state(test_file@, message),
                        lines@,
                        0,
                        message,
                    ) by {
                    assert(state_after_lines(
                        prev.spec_state(test_file@, message),
                        lines@,
                        i as int,
                        message,
                    ) == state_after_lines(
                        before.spec_state(test_file@, message),
                        lines@,
                        0,
                        message,
                    ));
                }
            }
            i = i + 1;
        }
    }

    /// What to do for the candidate `span`: run the tests of its file if the
    /// reference run showed the message of the test case around it; warn if
    /// it did not and no warning said so yet; else nothing.
    pub fn exec(&self, span: &Span) -> (step: ExecStep)
        requires
            self.spec_message_for(span@) is Some,
            self.spec_knows_file(span.source_file.path@),
        ensures
            match self.spec_state(
                span.source_file.path@,
                self.spec_message_for(span@).unwrap(),
            ) {
                ItMessageState::Found => step matches ExecStep::Run { args } && args@.len() == 3
                    && args@[0]@ == "hardhat"@ && args@[1]@ == "test"@ && args@[2]@
                    == span.source_file.path@,
                ItMessageState::NotFound => step matches ExecStep::Warn { it_message }
                    && it_message@ == self.spec_message_for(span@).unwrap(),
                ItMessageState::WarningEmitted => step is Skip,
            },
    {
        let it_message = match self.message_for(span) {
            Some(it_message) => it_message,
            None => unreached(),
        };
        match self.state(&span.source_file.path, &it_message) {
            ItMessageState::Found => {
                let mut args: Vec<String> = Vec::new();
                args.push(String::from_str("hardhat"));
                args.push(String::from_str("test"));
                args.push(span.source_file.path.clone());
                ExecStep::Run { args }
            },
            ItMessageState::NotFound => ExecStep::Warn { it_message },
            ItMessageState::WarningEmitted => ExecStep::Skip,
        }
    }

    /// Records that a warning said that the reference run did not show the
    /// message of the test case around `span`.
    pub fn warning_emitted(&mut self, span: &Span)
        requires
            old(self).spec_message_for(span@) is Some,
        ensures
            final(self).recorded() == old(self).recorded(),
            forall|file: Seq<char>| final(self).spec_knows_file(file) == old(self).spec_knows_file(file),
            final(self).spec_state(
                span.source_file.path@,
                old(self).spec_message_for(span@).unwrap(),
            ) == ItMessageState::WarningEmitted,
            forall|file: Seq<char>, message: Seq<char>|
                !(file == span.source_file.path@ && message == old(self).spec_message_for(
                    span@,
                ).unwrap()) ==> final(self).spec_state(file, message) == old(self).spec_state(
                    file,
                    message,
                ),
    {
        match self.message_for(span) {
            Some(it_message) => {
                self.set_state(&span.source_file.path, it_message, ItMessageState::WarningEmitted);
            },
            None => unreached(),
        }
    }
}

} // verus!
