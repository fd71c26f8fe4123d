//! The parts of a stream manifest that the API's own rules read and
//! rewrite: the pipeline bindings, the active selection, the grid layout
//! and the wires between pipelines. Pipeline ids are UUIDs held as `u128`.
use vstd::prelude::*;

verus! {

pub open spec fn opt_view(o: Option<String>) -> Option<Seq<char>> {
    match o {
        Some(s) => Some(s@),
        None => None,
    }
}

/// The two pipeline ids with a fixed meaning: the RAW passthrough pipeline
/// and the internal calibration-mode pipeline.
#[derive(Debug, Clone, Copy, PartialEq, Eq)]
pub struct ReservedPipelineIds {
    pub raw: u128,
    pub calibration_mode: u128,
}

/// A pipeline bound to a stream, with the output it shows by default.
#[derive(Debug, Clone, PartialEq, Eq)]
pub struct PipelineBinding {
    pub pipeline_id: u128,
    pub pipeline_output: Option<String>,
    /// The request carried the pipeline graph inline.
    pub has_inline_graph: bool,
}

pub ghost struct BindingView {
    pub pipeline_id: u128,
    pub pipeline_output: Option<Seq<char>>,
    pub has_inline_graph: bool,
}

impl View for PipelineBinding {
    type V = BindingView;

    open spec fn view(&self) -> BindingView {
        BindingView {
            pipeline_id: self.pipeline_id,
            pipeline_output: opt_view(self.pipeline_output),
            has_inline_graph: self.has_inline_graph,
        }
    }
}

/// One cell of the pipeline grid.
#[derive(Debug, Clone, PartialEq, Eq)]
pub struct LayoutSlot {
    pub row: u8,
    pub column: u8,
    pub pipeline_id: Option<u128>,
    pub output_key: Option<String>,
}

pub ghost struct SlotView {
    pub row: u8,
    pub column: u8,
    pub pipeline_id: Option<u128>,
    pub output_key: Option<Seq<char>>,
}

impl View for LayoutSlot {
    type V = SlotView;

    open spec fn view(&self) -> SlotView {
        SlotView {
            row: self.row,
            column: self.column,
            pipeline_id: self.pipeline_id,
            output_key: opt_view(self.output_key),
        }
    }
}

/// The grid in which pipeline outputs are shown.
#[derive(Debug, Clone, PartialEq, Eq)]
pub struct PipelineLayout {
    pub rows: u8,
    pub columns: u8,
    pub slots: Vec<LayoutSlot>,
}

pub ghost struct LayoutView {
    pub rows: u8,
    pub columns: u8,
    pub slots: Seq<SlotView>,
}

pub open spec fn slot_views(s: Seq<LayoutSlot>) -> Seq<SlotView> {
    s.map_values(|x: LayoutSlot| x@)
}

impl View for PipelineLayout {
    type V = LayoutView;

    open spec fn view(&self) -> LayoutView {
        LayoutView { rows: self.rows, columns: self.columns, slots: slot_views(self.slots@) }
    }
}

/// One end of a wire: a pipeline, and on the source side the output and
/// port the wire reads.
#[derive(Debug, Clone, PartialEq, Eq)]
pub struct WireEndpoint {
    pub pipeline_id: u128,
    pub output_key: Option<String>,
    pub port: Option<String>,
}

pub ghost struct EndpointView {
    pub pipeline_id: u128,
    pub output_key: Option<Seq<char>>,
    pub port: Option<Seq<char>>,
}

impl View for WireEndpoint {
    type V = EndpointView;

    open spec fn view(&self) -> EndpointView {
        EndpointView {
            pipeline_id: self.pipeline_id,
            output_key: opt_view(self.output_key),
            port: opt_view(self.port),
        }
    }
}

/// A wire from one pipeline's output into another pipeline.
#[derive(Debug, Clone, PartialEq, Eq)]
pub struct PipelineWire {
    pub from: WireEndpoint,
    pub to: WireEndpoint,
}

pub ghost struct WireView {
    pub from: EndpointView,
    pub to: EndpointView,
}

impl View for PipelineWire {
    type V = WireView;

    open spec fn view(&self) -> WireView {
        WireView { from: self.from@, to: self.to@ }
    }
}

/// The pipeline part of a stream manifest.
#[derive(Debug, Clone, PartialEq, Eq)]
pub struct PipelineConfig {
    pub pipeline_enabled: bool,
    pub pipelines: Vec<PipelineBinding>,
    pub active_pipeline_id: Option<u128>,
    pub active_pipeline_output: Option<String>,
    pub pipeline_layout: Option<PipelineLayout>,
    pub pipeline_wires: Vec<PipelineWire>,
}

pub ghost struct ConfigView {
    pub enabled: bool,
    pub bindings: Seq<BindingView>,
    pub active_id: Option<u128>,
    pub active_output: Option<Seq<char>>,
    pub layout: Option<LayoutView>,
    pub wires: Seq<WireView>,
}

pub open spec fn binding_views(s: Seq<PipelineBinding>) -> Seq<BindingView> {
    s.map_values(|x: PipelineBinding| x@)
}

pub open spec fn wire_views(s: Seq<PipelineWire>) -> Seq<WireView> {
    s.map_values(|x: PipelineWire| x@)
}

pub open spec fn layout_view(l: Option<PipelineLayout>) -> Option<LayoutView> {
    match l {
        Some(l) => Some(l@),
        None => None,
    }
}

impl View for PipelineConfig {
    type V = ConfigView;

    open spec fn view(&self) -> ConfigView {
        ConfigView {
            enabled: self.pipeline_enabled,
            bindings: binding_views(self.pipelines@),
            active_id: self.active_pipeline_id,
            active_output: opt_view(self.active_pipeline_output),
            layout: layout_view(self.pipeline_layout),
            wires: wire_views(self.pipeline_wires@),
        }
    }
}

} // verus!
