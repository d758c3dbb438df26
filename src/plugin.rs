use vstd::prelude::*;

use crate::instrument::{names_view, InstrumentLayer, Sensitivity};
use crate::retry::RetryConfig;

verus! {

/// What an operation declares of itself: its stable name and which fields of
/// its requests and responses are sensitive.
pub struct OperationShape {
    pub name: String,
    pub request_sensitivity: Sensitivity,
    pub response_sensitivity: Sensitivity,
}

pub struct ShapeView {
    pub name: Seq<char>,
    pub request_sensitive: Seq<Seq<char>>,
    pub response_sensitive: Seq<Seq<char>>,
}

impl View for OperationShape {
    type V = ShapeView;

    open spec fn view(&self) -> ShapeView {
        ShapeView {
            name: self.name@,
            request_sensitive: names_view(self.request_sensitivity.sensitive@),
            response_sensitive: names_view(self.response_sensitivity.sensitive@),
        }
    }
}

/// One middleware layer around an operation's handler.
pub enum Layer {
    Instrument(InstrumentLayer),
    Retry(RetryConfig),
    Timeout { ms: u64 },
}

pub enum LayerView {
    Instrument {
        operation: Seq<char>,
        request_sensitive: Seq<Seq<char>>,
        response_sensitive: Seq<Seq<char>>,
    },
    Retry(RetryConfig),
    Timeout(u64),
}

impl View for Layer {
    type V = LayerView;

    open spec fn view(&self) -> LayerView {
        match self {
            Layer::Instrument(l) => LayerView::Instrument {
                operation: l.operation_name@,
                request_sensitive: names_view(l.request_fmt.sensitive@),
                response_sensitive: names_view(l.response_fmt.sensitive@),
            },
            Layer::Retry(c) => LayerView::Retry(*c),
            Layer::Timeout { ms } => LayerView::Timeout(*ms),
        }
    }
}

pub open spec fn layers_view(layers: Seq<Layer>) -> Seq<LayerView> {
    layers.map_values(|l: Layer| l@)
}

/// An operation and the layers composed around it, in the order they were
/// added. At dispatch the last layer added is the outermost: it sees a
/// request first and its response last.
pub struct Operation {
    pub shape: OperationShape,
    pub layers: Vec<Layer>,
}

pub struct OperationView {
    pub shape: ShapeView,
    pub layers: Seq<LayerView>,
}

impl View for Operation {
    type V = OperationView;

    open spec fn view(&self) -> OperationView {
        OperationView { shape: self.shape@, layers: layers_view(self.layers@) }
    }
}

impl Operation {
    /// An operation with no layers yet.
    pub fn new(shape: OperationShape) -> (r: Operation)
        ensures
            r@.shape == shape@,
            r@.layers.len() == 0,
    {
        Operation { shape, layers: Vec::new() }
    }

    /// The same operation with `layer` composed outside its current layers.
    pub fn layer(self, layer: Layer) -> (r: Operation)
        ensures
            r@.shape == self@.shape,
            r@.layers == self@.layers.push(layer@),
    {
        let ghost before = self.layers@;
        let mut layers = self.layers;
        layers.push(layer);
        assert(layers_view(layers@) =~= layers_view(before).push(layer@));
        Operation { shape: self.shape, layers }
    }
}

/// A transformation that adds middleware to operations without their
/// handlers knowing of it.
pub trait Plugin {
    /// The layers that `map` adds to an operation of this shape, innermost first.
    spec fn added_layers(&self, shape: ShapeView) -> Seq<LayerView>;

    fn map(&self, operation: Operation) -> (r: Operation)
        ensures
            r@.shape == operation@.shape,
            r@.layers == operation@.layers + self.added_layers(operation@.shape),
    ;
}

/// The plugin that adds nothing.
pub struct IdentityPlugin;

impl Plugin for IdentityPlugin {
    open spec fn added_layers(&self, shape: ShapeView) -> Seq<LayerView> {
        Seq::empty()
    }

    fn map(&self, operation: Operation) -> (r: Operation) {
        assert(operation@.layers + Seq::<LayerView>::empty() =~= operation@.layers);
        operation
    }
}

/// Two plugins applied in turn: `inner` first, then `outer`.
pub struct PluginStack<Inner, Outer> {
    pub inner: Inner,
    pub outer: Outer,
}

impl<Inner: Plugin, Outer: Plugin> Plugin for PluginStack<Inner, Outer> {
    open spec fn added_layers(&self, shape: ShapeView) -> Seq<LayerView> {
        self.inner.added_layers(shape) + self.outer.added_layers(shape)
    }

    fn map(&self, operation: Operation) -> (r: Operation) {
        let ghost layers = operation@.layers;
        let ghost shape = operation@.shape;
        let r = self.outer.map(self.inner.map(operation));
        assert(layers + self.inner.added_layers(shape) + self.outer.added_layers(shape)
            =~= layers + self.added_layers(shape));
        r
    }
}

/// The instrumentation layer that an operation of this shape gets.
pub open spec fn instrument_view(shape: ShapeView) -> LayerView {
    LayerView::Instrument {
        operation: shape.name,
        request_sensitive: shape.request_sensitive,
        response_sensitive: shape.response_sensitive,
    }
}

/// A plugin which applies `InstrumentLayer` to all operations, under each
/// operation's name and through its declared sensitivity.
#[derive(Debug)]
pub struct TracePlugin;

impl Plugin for TracePlugin {
    open spec fn added_layers(&self, shape: ShapeView) -> Seq<LayerView> {
        seq![instrument_view(shape)]
    }

    fn map(&self, operation: Operation) -> (r: Operation) {
        let layer = InstrumentLayer::new(operation.shape.name.clone()).request_fmt(
            operation.shape.request_sensitivity.duplicate(),
        ).response_fmt(operation.shape.response_sensitivity.duplicate());
        let r = operation.layer(Layer::Instrument(layer));
        assert(r@.layers =~= operation@.layers + self.added_layers(operation@.shape));
        r
    }
}

/// A plugin that bounds every operation's call by a timeout.
pub struct TimeoutPlugin {
    pub ms: u64,
}

impl Plugin for TimeoutPlugin {
    open spec fn added_layers(&self, shape: ShapeView) -> Seq<LayerView> {
        seq![LayerView::Timeout(self.ms)]
    }

    fn map(&self, operation: Operation) -> (r: Operation) {
        let r = operation.layer(Layer::Timeout { ms: self.ms });
        assert(r@.layers =~= operation@.layers + self.added_layers(operation@.shape));
        r
    }
}

/// A plugin that retries every operation's call under `config`.
pub struct RetryPlugin {
    pub config: RetryConfig,
}

impl Plugin for RetryPlugin {
    open spec fn added_layers(&self, shape: ShapeView) -> Seq<LayerView> {
        seq![LayerView::Retry(self.config)]
    }

    fn map(&self, operation: Operation) -> (r: Operation) {
        let r = operation.layer(Layer::Retry(self.config));
        assert(r@.layers =~= operation@.layers + self.added_layers(operation@.shape));
        r
    }
}

/// A builder that holds plugins, applied to each operation in the order
/// they were added.
pub struct PluginPipeline<P> {
    pub plugin: P,
}

impl PluginPipeline<IdentityPlugin> {
    /// A pipeline that holds no plugin yet.
    pub fn new() -> (r: PluginPipeline<IdentityPlugin>)
        ensures
            r.adds_nothing(),
    {
        PluginPipeline { plugin: IdentityPlugin }
    }
}

impl<P: Plugin> PluginPipeline<P> {
    pub open spec fn adds_nothing(&self) -> bool {
        forall|shape: ShapeView| #[trigger] self.plugin.added_layers(shape) == Seq::<LayerView>::empty()
    }

    /// Adds `plugin` after those already held.
    pub fn push<N: Plugin>(self, plugin: N) -> (r: PluginPipeline<PluginStack<P, N>>)
        ensures
            r.plugin.inner == self.plugin,
            r.plugin.outer == plugin,
    {
        PluginPipeline { plugin: PluginStack { inner: self.plugin, outer: plugin } }
    }
}

impl<P: Plugin> Plugin for PluginPipeline<P> {
    open spec fn added_layers(&self, shape: ShapeView) -> Seq<LayerView> {
        self.plugin.added_layers(shape)
    }

    fn map(&self, operation: Operation) -> (r: Operation) {
        self.plugin.map(operation)
    }
}

/// A builder that can take a plugin and return a new builder with it applied.
pub trait Pluggable<NewPlugin>: Sized {
    type Output;

    /// The builder that `apply` returns.
    spec fn applied(self, plugin: NewPlugin) -> Self::Output;

    fn apply(self, plugin: NewPlugin) -> (r: Self::Output)
        ensures
            r == self.applied(plugin),
    ;
}

impl<P: Plugin, N: Plugin> Pluggable<N> for PluginPipeline<P> {
    type Output = PluginPipeline<PluginStack<P, N>>;

    open spec fn applied(self, plugin: N) -> PluginPipeline<PluginStack<P, N>> {
        PluginPipeline { plugin: PluginStack { inner: self.plugin, outer: plugin } }
    }

    fn apply(self, plugin: N) -> (r: PluginPipeline<PluginStack<P, N>>) {
        self.push(plugin)
    }
}

/// An extension trait for applying `InstrumentLayer` to all operations.
pub trait TraceExt: Pluggable<TracePlugin> + Sized {
    /// Applies `InstrumentLayer` to all operations.
    fn trace(self) -> (r: Self::Output)
        ensures
            r == self.applied(TracePlugin),
    {
        self.apply(TracePlugin)
    }
}

impl<Builder: Pluggable<TracePlugin>> TraceExt for Builder {

}

/// Applying plugins `a` then `b` as one pipeline composes the same layers,
/// in the same order, as applying `a` and then applying `b` to the result.
pub proof fn lemma_stack_applies_in_order<A: Plugin, B: Plugin>(
    a: A,
    b: B,
    operation: OperationView,
)
    ensures
        operation.layers + (PluginStack { inner: a, outer: b }).added_layers(operation.shape) == (
        operation.layers + a.added_layers(operation.shape)) + b.added_layers(operation.shape),
{
    assert(operation.layers + (PluginStack { inner: a, outer: b }).added_layers(operation.shape) =~= (
    operation.layers + a.added_layers(operation.shape)) + b.added_layers(operation.shape));
}

/// Grouping does not matter: `(a, b)` then `c` adds the same layers, in the
/// same order, as `a` then `(b, c)`.
pub proof fn lemma_stack_associative<A: Plugin, B: Plugin, C: Plugin>(
    a: A,
    b: B,
    c: C,
    shape: ShapeView,
)
    ensures
        (PluginStack { inner: (PluginStack { inner: a, outer: b }), outer: c }).added_layers(shape)
            == (PluginStack { inner: a, outer: (PluginStack { inner: b, outer: c }) }).added_layers(
            shape,
        ),
{
    assert((PluginStack { inner: (PluginStack { inner: a, outer: b }), outer: c }).added_layers(shape)
        =~= (PluginStack { inner: a, outer: (PluginStack { inner: b, outer: c }) }).added_layers(
        shape,
    ));
}

/// Tracing a pipeline adds, after the layers of the plugins it already
/// holds, one instrumentation layer under the operation's name and policies.
pub proof fn lemma_trace_adds_instrument_last<P: Plugin>(pipeline: PluginPipeline<P>, shape: ShapeView)
    ensures
        pipeline.applied(TracePlugin).added_layers(shape) == pipeline.added_layers(shape).push(
            instrument_view(shape),
        ),
{
    assert(pipeline.applied(TracePlugin).added_layers(shape) =~= pipeline.added_layers(shape).push(
        instrument_view(shape),
    ));
}

} // verus!
