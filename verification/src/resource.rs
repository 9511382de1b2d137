use vstd::prelude::*;

use crate::asset::graph::MidiGraph;
use crate::asset::loader::GraphAssetLoader;
use crate::builder::{
    build, built_view, lemma_some_build_fails, lemma_unsupplied_path_fails_build, may_build,
};
use crate::descriptor::{DescriptorView, NodeDescriptor};
use crate::error::{outcome, Error};
use crate::message::ControlMessage;
use crate::mixer::{Mixer, MixerView};
use crate::program::{Program, ProgramView};
use crate::state::AudioContextState;

verus! {

/// The audio engine as the host sees it: the mixer with its programs, and
/// the number of the program whose assets the host is reading.
#[derive(Debug, PartialEq, Eq)]
pub struct MidiGraphAudioContext {
    mixer: Mixer,
    loading_program: Option<usize>,
}

/// The audio context as a mathematical value.
pub struct ContextView {
    pub mixer: MixerView,
    pub loading_program: Option<usize>,
}

/// What one look at the loading program came to: the state that the host
/// is to enter, if it is to leave the one it is in, and the failure that the
/// look met, if it met one.
#[derive(Debug, Clone, Copy, PartialEq, Eq)]
pub struct LoadingStep {
    pub next_state: Option<AudioContextState>,
    pub result: Result<(), Error>,
}

impl ContextView {
    /// The context after a build that came to `built` was stored under
    /// `program_no`, with the word whether it took the place of another; or
    /// the failure of the build, which stores nothing.
    pub open spec fn store_built(
        self,
        program_no: usize,
        built: Result<ProgramView, Error>,
    ) -> Result<(ContextView, bool), Error> {
        match built {
            Ok(program) => Ok(
                (
                    ContextView { mixer: self.mixer.store(program_no, program), ..self },
                    self.mixer.programs.contains_key(program_no),
                ),
            ),
            Err(error) => Err(error),
        }
    }

    /// The context after the program that `config` describes was built and
    /// stored under `program_no`, every asset path of `config` being simple.
    pub open spec fn store_new_program(
        self,
        program_no: usize,
        config: DescriptorView,
        loader: GraphAssetLoader,
    ) -> Result<(ContextView, bool), Error> {
        self.store_built(program_no, config.spec_build_program(loader))
    }

    /// The context after the program `program_no` was made the live one; or
    /// the failure to find it.
    pub open spec fn change_program(self, program_no: usize) -> Result<ContextView, Error> {
        match self.mixer.activate(program_no) {
            Ok(mixer) => Ok(ContextView { mixer, ..self }),
            Err(error) => Err(error),
        }
    }

    /// The context after `message` was queued for the event receiver
    /// `node_id` of the live program; or the failure to find the receiver.
    pub open spec fn send_event(self, node_id: u64, message: ControlMessage) -> Result<
        ContextView,
        Error,
    > {
        match self.mixer.send(node_id, message) {
            Ok(mixer) => Ok(ContextView { mixer, ..self }),
            Err(error) => Err(error),
        }
    }

    /// The context after one look at the loading program, and what the look
    /// came to. `built` is what the build of the graph came to once the host
    /// has read the graph with everything it refers to, and `None` before.
    ///
    /// With no program loading the look fails. Before the graph is read
    /// nothing happens. Once it is read the host is to enter
    /// [`AudioContextState::Running`], whatever the build came to: a program
    /// that was built is stored under the loading number and made the live
    /// one, and a build that failed is reported and stores nothing.
    pub open spec fn check_loading_built(self, built: Option<Result<ProgramView, Error>>) -> (
        ContextView,
        LoadingStep,
    ) {
        match (self.loading_program, built) {
            (None, _) => (
                self,
                LoadingStep { next_state: None, result: Err(Error::NoLoadingProgram) },
            ),
            (Some(_), None) => (self, LoadingStep { next_state: None, result: Ok(()) }),
            (Some(program_no), Some(built)) => match self.store_built(program_no, built) {
                Err(error) => (
                    self,
                    LoadingStep { next_state: Some(AudioContextState::Running), result: Err(error) },
                ),
                Ok((stored, _)) => (
                    ContextView {
                        mixer: MixerView { current: Some(program_no), ..stored.mixer },
                        ..stored
                    },
                    LoadingStep { next_state: Some(AudioContextState::Running), result: Ok(()) },
                ),
            },
        }
    }

    /// The context after one look at the loading program, and what the look
    /// came to. `config` is the description of the graph once the host has
    /// read it with everything it refers to, and `None` before; every asset
    /// path of the description is simple.
    pub open spec fn check_loading_asset(
        self,
        config: Option<DescriptorView>,
        loader: GraphAssetLoader,
    ) -> (ContextView, LoadingStep) {
        self.check_loading_built(
            match config {
                Some(config) => Some(config.spec_build_program(loader)),
                None => None,
            },
        )
    }

    /// A description that builds can be stored under any number and then be
    /// made the live program: both steps succeed, and the number of the live
    /// program is the number it was stored under.
    pub proof fn lemma_build_store_activate(
        self,
        program_no: usize,
        config: DescriptorView,
        loader: GraphAssetLoader,
    )
        requires
            config.spec_build_program(loader) is Ok,
        ensures
            self.store_new_program(program_no, config, loader) is Ok,
            self.store_new_program(program_no, config, loader).unwrap().0.change_program(
                program_no,
            ) is Ok,
            self.store_new_program(program_no, config, loader).unwrap().0.change_program(
                program_no,
            ).unwrap().mixer.current == Some(program_no),
    {
    }

    /// Where the loader fails for a path that the description names, the
    /// program is not stored: the failure is reported, and every program
    /// that was stored, under this number or another, is kept.
    pub proof fn lemma_unsupplied_path_stores_nothing(
        self,
        program_no: usize,
        config: DescriptorView,
        loader: GraphAssetLoader,
        i: int,
    )
        requires
            0 <= i < config.asset_sources().len(),
            loader.spec_load_asset_data(config.asset_sources()[i]) is Err,
        ensures
            self.store_new_program(program_no, config, loader) is Err,
    {
        lemma_unsupplied_path_fails_build(config, loader, i);
    }

    /// The first program stored under a number replaces nothing, and every
    /// program stored under that number afterwards replaces one.
    pub proof fn lemma_replaced_tells_taken_number(
        self,
        program_no: usize,
        first: DescriptorView,
        second: DescriptorView,
        loader: GraphAssetLoader,
    )
        requires
            first.spec_build_program(loader) is Ok,
            second.spec_build_program(loader) is Ok,
        ensures
            self.store_new_program(program_no, first, loader).unwrap().1
                == self.mixer.programs.contains_key(program_no),
            self.store_new_program(program_no, first, loader).unwrap().0.store_new_program(
                program_no,
                second,
                loader,
            ).unwrap().1,
    {
    }

    /// Once the graph of the loading program is read and builds, one look
    /// makes it the live program.
    pub proof fn lemma_loaded_program_goes_live(
        self,
        config: DescriptorView,
        loader: GraphAssetLoader,
    )
        requires
            self.loading_program is Some,
            config.spec_build_program(loader) is Ok,
        ensures
            self.check_loading_asset(Some(config), loader).0.mixer.current == self.loading_program,
            self.check_loading_asset(Some(config), loader).1 == (LoadingStep {
                next_state: Some(AudioContextState::Running),
                result: Ok(()),
            }),
            self.check_loading_asset(Some(config), loader).0.mixer.wf(),
    {
    }
}

/// What storing a program came to, with the context it left.
pub open spec fn stored_view(result: Result<bool, Error>, context: ContextView) -> Result<
    (ContextView, bool),
    Error,
> {
    match result {
        Ok(replaced) => Ok((context, replaced)),
        Err(error) => Err(error),
    }
}

/// What the build of a graph came to, where the graph was read.
pub open spec fn may_build_graph(
    asset: Option<&MidiGraph>,
    built: Option<Result<ProgramView, Error>>,
) -> bool {
    match asset {
        Some(graph) => built matches Some(built) && may_build(graph.config@, built),
        None => built is None,
    }
}

/// Whether every asset path of the graph is simple, where the graph was
/// read.
pub open spec fn simple_graph(asset: Option<&MidiGraph>) -> bool {
    asset matches Some(graph) ==> graph.config@.simple_paths()
}

/// The description of the graph, where the graph was read.
pub open spec fn graph_view(asset: Option<&MidiGraph>) -> Option<DescriptorView> {
    match asset {
        Some(graph) => Some(graph.config@),
        None => None,
    }
}

impl View for MidiGraphAudioContext {
    type V = ContextView;

    closed spec fn view(&self) -> ContextView {
        ContextView { mixer: self.mixer@, loading_program: self.loading_program }
    }
}

impl Default for MidiGraphAudioContext {
    /// Makes a context that stores no program, plays none and loads none.
    fn default() -> (context: Self)
        ensures
            context@ == (ContextView {
                mixer: MixerView { programs: Map::empty(), current: None },
                loading_program: None,
            }),
            context@.mixer.programs_wf(),
    {
        MidiGraphAudioContext { mixer: Mixer::new(), loading_program: None }
    }
}

impl MidiGraphAudioContext {
    /// Returns the number of the program that is being played, if any.
    pub fn current_program_id(&self) -> (current: Option<usize>)
        ensures
            current == self@.mixer.current,
    {
        self.mixer.current_program_id()
    }

    /// Returns the program stored under `program_no`, if there is one.
    pub fn program(&self, program_no: usize) -> (stored: Option<&Program>)
        ensures
            match stored {
                Some(program) => self@.mixer.programs.contains_key(program_no)
                    && self@.mixer.programs[program_no] == program@,
                None => !self@.mixer.programs.contains_key(program_no),
            },
    {
        self.mixer.program(program_no)
    }

    /// Returns the messages that wait for the event receiver `node_id` of
    /// the program that is being played, the oldest first; `None` where no
    /// program is being played or it has no such receiver.
    pub fn pending_events(&self, node_id: u64) -> (waiting: Option<Vec<ControlMessage>>)
        ensures
            match waiting {
                Some(messages) => self@.mixer.playing() matches Some(program) && program.pending(
                    node_id,
                ) == Some(messages@),
                None => self@.mixer.playing() matches Some(program) ==> program.pending(node_id)
                    is None,
            },
    {
        self.mixer.pending(node_id)
    }

    /// Returns the number of the program whose assets are being read, if
    /// any.
    pub fn loading_program(&self) -> (loading: Option<usize>)
        ensures
            loading == self@.loading_program,
    {
        self.loading_program
    }

    /// Notes down that the program `program_no` is being loaded, and returns
    /// the state that the host is to enter.
    pub fn start_new_program(&mut self, program_no: usize) -> (next_state: AudioContextState)
        ensures
            final(self)@ == (ContextView { loading_program: Some(program_no), ..old(self)@ }),
            next_state == AudioContextState::Loading,
    {
        self.loading_program = Some(program_no);
        AudioContextState::Loading
    }

    /// Builds the program that `config` describes, with the data that
    /// `loader` holds, and stores it under `program_no`, ready to be played
    /// when asked for. Tells whether a program was stored under the number
    /// before. A build that fails stores nothing.
    ///
    /// Where every asset path of `config` is simple the result is fixed.
    /// Any other path is typed as the standard library reads it, and the
    /// store goes by what the build came to.
    pub fn store_new_program(
        &mut self,
        program_no: usize,
        config: &NodeDescriptor,
        loader: &GraphAssetLoader,
    ) -> (result: Result<bool, Error>)
        ensures
            config@.simple_paths() ==> stored_view(result, final(self)@) == old(
                self,
            )@.store_new_program(program_no, config@, *loader),
            exists|built: Result<ProgramView, Error>|
                may_build(config@, built) && stored_view(result, final(self)@) == #[trigger] old(
                    self,
                )@.store_built(program_no, built),
            result is Err ==> *final(self) == *old(self),
            old(self)@.mixer.programs_wf() ==> final(self)@.mixer.programs_wf(),
    {
        let built = build(config, loader);
        let ghost came_to = built_view(built);
        let result = match built {
            Ok(program) => Ok(self.mixer.store_program(program_no, program)),
            Err(error) => Err(error),
        };
        assert(stored_view(result, self@) == old(self)@.store_built(program_no, came_to));
        result
    }

    /// Stores a program that was built before under `program_no`, and tells
    /// whether it took the place of a program that was stored there.
    pub fn store_program(&mut self, program_no: usize, program: Program) -> (replaced: bool)
        ensures
            replaced == old(self)@.mixer.programs.contains_key(program_no),
            final(self)@ == (ContextView {
                mixer: old(self)@.mixer.store(program_no, program@),
                ..old(self)@
            }),
            old(self)@.mixer.programs_wf() && program@.wf() ==> final(self)@.mixer.programs_wf(),
    {
        self.mixer.store_program(program_no, program)
    }

    /// Tells whether the program `program_no` could be made the one that is
    /// played, and changes nothing.
    pub fn can_change_program(&self, program_no: usize) -> (result: Result<(), Error>)
        ensures
            result == outcome(self@.change_program(program_no)),
    {
        if self.mixer.has_program(program_no) {
            Ok(())
        } else {
            Err(Error::NotFound(program_no))
        }
    }

    /// Makes the program stored under `program_no` the one that is played.
    /// Fails, and changes nothing, where no program is stored under the
    /// number.
    pub fn change_program(&mut self, program_no: usize) -> (result: Result<(), Error>)
        ensures
            result == outcome(old(self)@.change_program(program_no)),
            old(self)@.change_program(program_no) matches Ok(context) ==> final(self)@ == context,
            result is Err ==> *final(self) == *old(self),
    {
        self.mixer.change_program(program_no)
    }

    /// Tells what a look at the program that is being loaded would come to,
    /// and changes nothing. `asset` is the graph once the host has read it
    /// with everything it refers to, and `None` before.
    pub fn plan_loading_asset(&self, asset: Option<&MidiGraph>, loader: &GraphAssetLoader) -> (step:
        LoadingStep)
        ensures
            simple_graph(asset) ==> step == self@.check_loading_asset(graph_view(asset), *loader).1,
            exists|built: Option<Result<ProgramView, Error>>|
                may_build_graph(asset, built) && step == (#[trigger] self@.check_loading_built(
                    built,
                )).1,
    {
        let ghost came_to;
        let step = if self.loading_program.is_none() {
            proof {
                came_to = match asset {
                    Some(graph) => Some(lemma_some_build_fails(graph.config@)),
                    None => None,
                };
            }
            LoadingStep { next_state: None, result: Err(Error::NoLoadingProgram) }
        } else {
            match asset {
                None => {
                    proof {
                        came_to = None;
                    }
                    LoadingStep { next_state: None, result: Ok(()) }
                },
                Some(graph) => {
                    let built = build(&graph.config, loader);
                    proof {
                        came_to = Some(built_view(built));
                    }
                    match built {
                        Ok(_) => LoadingStep {
                            next_state: Some(AudioContextState::Running),
                            result: Ok(()),
                        },
                        Err(error) => LoadingStep {
                            next_state: Some(AudioContextState::Running),
                            result: Err(error),
                        },
                    }
                },
            }
        };
        assert(may_build_graph(asset, came_to));
        assert(step == self@.check_loading_built(came_to).1);
        step
    }

    /// Looks at the program that is being loaded. `asset` is the graph once
    /// the host has read it with everything it refers to, and `None` before.
    ///
    /// Where every asset path of the graph is simple the result is fixed.
    /// Any other path is typed as the standard library reads it, and the look
    /// goes by what the build came to.
    pub fn check_loading_asset(
        &mut self,
        asset: Option<&MidiGraph>,
        loader: &GraphAssetLoader,
    ) -> (step: LoadingStep)
        ensures
            simple_graph(asset) ==> (final(self)@, step) == old(self)@.check_loading_asset(
                graph_view(asset),
                *loader,
            ),
            exists|built: Option<Result<ProgramView, Error>>|
                may_build_graph(asset, built) && (final(self)@, step) == #[trigger] old(
                    self,
                )@.check_loading_built(built),
            old(self)@.mixer.programs_wf() ==> final(self)@.mixer.programs_wf(),
    {
        let ghost came_to;
        let loading_program_no = match self.loading_program {
            Some(program_no) => program_no,
            None => {
                proof {
                    came_to = match asset {
                        Some(graph) => Some(lemma_some_build_fails(graph.config@)),
                        None => None,
                    };
                    assert(may_build_graph(asset, came_to));
                    assert((self@, LoadingStep {
                        next_state: None,
                        result: Err(Error::NoLoadingProgram),
                    }) == old(self)@.check_loading_built(came_to));
                }
                return LoadingStep { next_state: None, result: Err(Error::NoLoadingProgram) };
            },
        };
        let graph = match asset {
            Some(graph) => graph,
            None => {
                proof {
                    came_to = None;
                    assert(may_build_graph(asset, came_to));
                    assert((self@, LoadingStep { next_state: None, result: Ok(()) }) == old(
                        self,
                    )@.check_loading_built(came_to));
                }
                return LoadingStep { next_state: None, result: Ok(()) };
            },
        };
        let next_state = Some(AudioContextState::Running);
        let built = build(&graph.config, loader);
        proof {
            came_to = Some(built_view(built));
            assert(may_build_graph(asset, came_to));
        }
        let program = match built {
            Ok(program) => program,
            Err(error) => {
                let step = LoadingStep { next_state, result: Err(error) };
                assert((self@, step) == old(self)@.check_loading_built(came_to));
                return step;
            },
        };
        let current_program_no = self.mixer.current_program_id();
        self.mixer.store_program(loading_program_no, program);
        let ghost stored = self@;
        assert(stored.mixer.programs.contains_key(loading_program_no));
        let changed = match current_program_no {
            Some(program_no) => if program_no != loading_program_no {
                self.change_program(loading_program_no)
            } else {
                Ok(())
            },
            None => self.change_program(loading_program_no),
        };
        assert(changed is Ok);
        assert(self@.mixer == (MixerView { current: Some(loading_program_no), ..stored.mixer }));
        let step = LoadingStep { next_state, result: changed };
        assert((self@, step) == old(self)@.check_loading_built(came_to));
        step
    }

    /// Queues `message` for the event receiver `node_id` of the program that
    /// is being played. Fails, and changes nothing, where that program has
    /// no such receiver or no program is being played.
    pub fn send_event(&mut self, node_id: u64, message: ControlMessage) -> (result: Result<
        (),
        Error,
    >)
        ensures
            result == outcome(old(self)@.send_event(node_id, message)),
            old(self)@.send_event(node_id, message) matches Ok(context) ==> final(self)@ == context,
            result is Err ==> *final(self) == *old(self),
            old(self)@.mixer.programs_wf() ==> final(self)@.mixer.programs_wf(),
    {
        self.mixer.send(node_id, message)
    }

    /// Renders the control side of one block of `frames` frames and returns
    /// the number of the program that the block was pulled from.
    pub fn render_block(&mut self, frames: usize) -> (played: Option<usize>)
        ensures
            played == old(self)@.mixer.playing_number(),
            final(self)@ == (ContextView {
                mixer: old(self)@.mixer.render_block(frames),
                ..old(self)@
            }),
            old(self)@.mixer.programs_wf() ==> final(self)@.mixer.programs_wf(),
    {
        self.mixer.render_block(frames)
    }
}

} // verus!
