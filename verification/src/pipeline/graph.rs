//! A pipeline as a description: its pipes in order, each a row of
//! processors with their ports. Whoever runs the query makes the processors
//! from it.

use vstd::prelude::*;
use crate::join::row::JoinType;
use crate::join::state::JoinError;

verus! {

/// What a processor does.
#[derive(Clone, Copy, Debug, PartialEq, Eq, Structural)]
pub enum ProcessorKind {
    /// Reads the rows of a scan.
    Source,
    /// Spreads the rows of its inputs over its outputs.
    Resize,
    /// Hands every row of its input to each of its two outputs.
    Duplicate,
    /// Takes build rows into the state of a hash join. With `spill` it may
    /// set rows aside when memory runs short.
    HashJoinBuild { spill: bool },
    /// Joins probe rows against the built table.
    HashJoinProbe {
        join_type: JoinType,
        spill: bool,
        has_residual: bool,
        has_string_column: bool,
        max_block_size: usize,
    },
    /// Counts the rows and bytes that pass, for the plan node's profile.
    ProfileStub,
    /// The left side of a range join: joins its rows against the right side.
    RangeJoinLeft,
    /// The right side of a range join: gathers its rows.
    RangeJoinRight,
    /// Takes the rows that a runtime filter is built from.
    RuntimeFilterSink,
    /// Drops the rows that the runtime filter excludes.
    RuntimeFilter,
    /// Keeps the rows of a common table expression for its readers.
    MaterializedCteSink { cte_idx: usize },
    /// Projects the result of a plan onto the columns asked for.
    Projection,
    /// Sends the rows of one side of a union to the other.
    UnionReceiveSink,
    /// Merges the rows received from the other side of a union into its own.
    MergeBlock,
}

/// A processor: what it does, and the plan node it is profiled under, where
/// profiling is on.
#[derive(Clone, Copy, Debug, PartialEq, Eq, Structural)]
pub struct Processor {
    pub kind: ProcessorKind,
    pub profiled_as: Option<u32>,
}

/// A processor with the number of its input and output ports.
#[derive(Clone, Copy, Debug, PartialEq, Eq, Structural)]
pub struct PipeItem {
    pub processor: Processor,
    pub inputs: usize,
    pub outputs: usize,
}

impl PipeItem {
    pub fn create(processor: Processor, inputs: usize, outputs: usize) -> (item: PipeItem)
        ensures
            item == (PipeItem { processor, inputs, outputs }),
    {
        PipeItem { processor, inputs, outputs }
    }
}

/// One stage of a pipeline.
pub struct Pipe {
    pub items: Vec<PipeItem>,
    pub input_length: usize,
    pub output_length: usize,
}

/// A stage by what it holds.
pub struct PipeView {
    pub items: Seq<PipeItem>,
    pub input_length: usize,
    pub output_length: usize,
}

impl View for Pipe {
    type V = PipeView;

    open spec fn view(&self) -> PipeView {
        PipeView {
            items: self.items@,
            input_length: self.input_length,
            output_length: self.output_length,
        }
    }
}

impl Pipe {
    pub fn create(inputs: usize, outputs: usize, items: Vec<PipeItem>) -> (pipe: Pipe)
        ensures
            pipe@ == (PipeView { items: items@, input_length: inputs, output_length: outputs }),
    {
        Pipe { items, input_length: inputs, output_length: outputs }
    }
}

/// A stage of transforms: one processor for each output of the stage before,
/// each with one input and one output.
pub open spec fn transform_pipe(width: usize, processor: Processor) -> PipeView {
    PipeView {
        items: Seq::new(width as nat, |i: int| PipeItem { processor, inputs: 1, outputs: 1 }),
        input_length: width,
        output_length: width,
    }
}

/// A stage of sinks: one processor for each output of the stage before, each
/// with one input and no output.
pub open spec fn sink_pipe(width: usize, processor: Processor) -> PipeView {
    PipeView {
        items: Seq::new(width as nat, |i: int| PipeItem { processor, inputs: 1, outputs: 0 }),
        input_length: width,
        output_length: 0,
    }
}

/// A stage of sources: `width` processors, each with no input and one
/// output.
pub open spec fn source_pipe(width: usize, processor: Processor) -> PipeView {
    PipeView {
        items: Seq::new(width as nat, |i: int| PipeItem { processor, inputs: 0, outputs: 1 }),
        input_length: 0,
        output_length: width,
    }
}

/// A stage that resizes: one processor with `from` inputs and `to` outputs.
pub open spec fn resize_pipe(from: usize, to: usize) -> PipeView {
    PipeView {
        items: seq![
            PipeItem {
                processor: Processor { kind: ProcessorKind::Resize, profiled_as: None },
                inputs: from,
                outputs: to,
            },
        ],
        input_length: from,
        output_length: to,
    }
}

/// A stage that duplicates: one processor for each output of the stage
/// before, each with one input and two outputs.
pub open spec fn duplicate_pipe(width: usize) -> PipeView
    recommends
        2 * width <= usize::MAX,
{
    PipeView {
        items: Seq::new(
            width as nat,
            |i: int|
                PipeItem {
                    processor: Processor { kind: ProcessorKind::Duplicate, profiled_as: None },
                    inputs: 1,
                    outputs: 2,
                },
        ),
        input_length: width,
        output_length: (2 * width) as usize,
    }
}

/// The number of outputs that a sequence of stages ends in.
pub open spec fn width_of(pipes: Seq<PipeView>) -> usize {
    if pipes.len() == 0 {
        0
    } else {
        pipes.last().output_length
    }
}

/// Every stage takes as many inputs as the stage before it gives outputs.
pub open spec fn chained(pipes: Seq<PipeView>) -> bool {
    forall|k: int| 0 < k < pipes.len() ==> (#[trigger] pipes[k]).input_length == pipes[k
        - 1].output_length
}

/// Why a pipeline could not be built on.
#[derive(Clone, Copy, Debug, PartialEq, Eq, Structural)]
pub enum PipelineError {
    /// The pipeline has no stage.
    EmptyPipeline,
    /// The pipeline has no output to resize.
    CannotResize,
    /// The pipeline has no output to duplicate.
    CannotDuplicate,
    /// The pipeline would get more ports than can be counted.
    TooWide,
    /// A pipeline that must give rows gives none.
    NotPulling,
    /// A plan names a state that was never set up.
    MissingState,
    /// A runtime filter source asks for a width that does not split in two.
    OddWidth,
    /// A join of the plan cannot be set up.
    Join(JoinError),
}

pub struct Pipeline {
    pub pipes: Vec<Pipe>,
}

impl Pipeline {
    /// The stages of the pipeline, by what they hold.
    pub open spec fn stages(&self) -> Seq<PipeView> {
        Seq::new(self.pipes.len() as nat, |k: int| self.pipes[k]@)
    }

    pub open spec fn well_formed(&self) -> bool {
        chained(self.stages())
    }

    pub fn create() -> (pipeline: Pipeline)
        ensures
            pipeline.stages() == Seq::<PipeView>::empty(),
            pipeline.well_formed(),
    {
        let pipeline = Pipeline { pipes: Vec::new() };
        proof {
            assert(pipeline.stages() =~= Seq::<PipeView>::empty());
        }
        pipeline
    }

    pub fn is_empty(&self) -> (empty: bool)
        ensures
            empty == (self.stages().len() == 0),
    {
        self.pipes.len() == 0
    }

    /// The number of outputs of the last stage; none for an empty pipeline.
    pub fn output_len(&self) -> (len: usize)
        ensures
            len == width_of(self.stages()),
    {
        if self.pipes.len() == 0 {
            0
        } else {
            self.pipes[self.pipes.len() - 1].output_length
        }
    }

    /// Whether rows can be pulled from the pipeline: its last stage has
    /// outputs. An empty pipeline cannot be asked.
    pub fn is_pulling_pipeline(&self) -> (res: Result<bool, PipelineError>)
        ensures
            res == (if self.stages().len() == 0 {
                Err::<bool, PipelineError>(PipelineError::EmptyPipeline)
            } else {
                Ok::<bool, PipelineError>(width_of(self.stages()) != 0)
            }),
    {
        if self.pipes.len() == 0 {
            Err(PipelineError::EmptyPipeline)
        } else {
            Ok(self.pipes[self.pipes.len() - 1].output_length != 0)
        }
    }

    /// Adds a stage. It must take what the pipeline gives.
    pub fn add_pipe(&mut self, pipe: Pipe)
        requires
            old(self).well_formed(),
            old(self).stages().len() > 0 ==> pipe.input_length == width_of(old(self).stages()),
        ensures
            final(self).well_formed(),
            final(self).stages() == old(self).stages().push(pipe@),
    {
        let ghost before = self.stages();
        self.pipes.push(pipe);
        proof {
            assert(self.stages() =~= before.push(pipe@));
        }
    }

    fn uniform_items(width: usize, item: PipeItem) -> (items: Vec<PipeItem>)
        ensures
            items@ == Seq::new(width as nat, |i: int| item),
    {
        let mut items: Vec<PipeItem> = Vec::new();
        let mut i: usize = 0;
        while i < width
            invariant
                i <= width,
                items@ == Seq::new(i as nat, |k: int| item),
            decreases width - i,
        {
            items.push(item);
            proof {
                assert(items@ =~= Seq::new((i + 1) as nat, |k: int| item));
            }
            i = i + 1;
        }
        items
    }

    /// Adds a stage of sources.
    pub fn add_source(&mut self, processor: Processor, width: usize)
        requires
            old(self).well_formed(),
            old(self).stages().len() == 0,
        ensures
            final(self).well_formed(),
            final(self).stages() == old(self).stages().push(source_pipe(width, processor)),
    {
        let items = Pipeline::uniform_items(width, PipeItem::create(processor, 0, 1));
        self.add_pipe(Pipe::create(0, width, items));
    }

    /// Adds a stage with one transform for each output.
    pub fn add_transform(&mut self, processor: Processor)
        requires
            old(self).well_formed(),
        ensures
            final(self).well_formed(),
            final(self).stages() == old(self).stages().push(
                transform_pipe(width_of(old(self).stages()), processor),
            ),
    {
        let width: usize = self.output_len();
        let items = Pipeline::uniform_items(width, PipeItem::create(processor, 1, 1));
        self.add_pipe(Pipe::create(width, width, items));
    }

    /// Adds a stage with one sink for each output.
    pub fn add_sink(&mut self, processor: Processor)
        requires
            old(self).well_formed(),
        ensures
            final(self).well_formed(),
            final(self).stages() == old(self).stages().push(
                sink_pipe(width_of(old(self).stages()), processor),
            ),
    {
        let width: usize = self.output_len();
        let items = Pipeline::uniform_items(width, PipeItem::create(processor, 1, 0));
        self.add_pipe(Pipe::create(width, 0, items));
    }

    /// What resizing does to the stages: nothing where the width is right
    /// already, else one more stage that resizes.
    pub open spec fn resized(stages: Seq<PipeView>, new_size: usize) -> Result<
        Seq<PipeView>,
        PipelineError,
    > {
        if width_of(stages) == 0 {
            Err(PipelineError::CannotResize)
        } else if width_of(stages) == new_size {
            Ok(stages)
        } else {
            Ok(stages.push(resize_pipe(width_of(stages), new_size)))
        }
    }

    /// Brings the pipeline to `new_size` outputs.
    pub fn try_resize(&mut self, new_size: usize) -> (res: Result<(), PipelineError>)
        requires
            old(self).well_formed(),
        ensures
            final(self).well_formed(),
            match Pipeline::resized(old(self).stages(), new_size) {
                Ok(stages) => res is Ok && final(self).stages() == stages,
                Err(e) => res == Err::<(), PipelineError>(e) && final(self).stages() == old(
                    self,
                ).stages(),
            },
    {
        let width: usize = self.output_len();
        if width == 0 {
            return Err(PipelineError::CannotResize);
        }
        if width == new_size {
            return Ok(());
        }
        let mut items: Vec<PipeItem> = Vec::new();
        items.push(
            PipeItem::create(
                Processor { kind: ProcessorKind::Resize, profiled_as: None },
                width,
                new_size,
            ),
        );
        proof {
            assert(items@ =~= resize_pipe(width, new_size).items);
        }
        self.add_pipe(Pipe::create(width, new_size, items));
        Ok(())
    }

    /// What duplicating does to the stages.
    pub open spec fn duplicated(stages: Seq<PipeView>) -> Result<Seq<PipeView>, PipelineError> {
        if width_of(stages) == 0 {
            Err(PipelineError::CannotDuplicate)
        } else if 2 * width_of(stages) > usize::MAX {
            Err(PipelineError::TooWide)
        } else {
            Ok(stages.push(duplicate_pipe(width_of(stages))))
        }
    }

    /// Gives every output a twin that carries the same rows.
    pub fn duplicate(&mut self) -> (res: Result<(), PipelineError>)
        requires
            old(self).well_formed(),
        ensures
            final(self).well_formed(),
            match Pipeline::duplicated(old(self).stages()) {
                Ok(stages) => res is Ok && final(self).stages() == stages,
                Err(e) => res == Err::<(), PipelineError>(e) && final(self).stages() == old(
                    self,
                ).stages(),
            },
    {
        let width: usize = self.output_len();
        if width == 0 {
            return Err(PipelineError::CannotDuplicate);
        }
        if width > usize::MAX / 2 {
            return Err(PipelineError::TooWide);
        }
        let items = Pipeline::uniform_items(
            width,
            PipeItem::create(Processor { kind: ProcessorKind::Duplicate, profiled_as: None }, 1, 2),
        );
        self.add_pipe(Pipe::create(width, 2 * width, items));
        Ok(())
    }

    /// The pipeline as it is handed over to be run.
    pub fn finalize(self) -> (pipeline: Pipeline)
        ensures
            pipeline == self,
    {
        self
    }
}

} // verus!
