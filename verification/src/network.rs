//! The shape of a layered feed-forward network and the order in which its
//! parameters make a chromosome.
//!
//! A network is a run of layers, a layer a run of neurons, and a neuron a
//! bias with one weight per input. Flattened, the parameters stand layer
//! after layer and neuron after neuron, each neuron giving its bias first
//! and then its weights. All are bit patterns of single-precision reals.

use vstd::prelude::*;

verus! {

/// How many neurons one layer has.
#[derive(Clone, Copy, Debug)]
pub struct LayerTopology {
    pub neurons: usize,
}

/// A neuron as a plain value.
pub struct NeuronView {
    pub bias: u32,
    pub weights: Seq<u32>,
}

/// The parameters of a neuron: its bias, then its weights.
pub open spec fn flat_neuron(neuron: NeuronView) -> Seq<u32> {
    seq![neuron.bias] + neuron.weights
}

/// The parameters of a layer, neuron after neuron.
pub open spec fn flat_layer(layer: Seq<NeuronView>) -> Seq<u32>
    decreases layer.len(),
{
    if layer.len() == 0 {
        Seq::empty()
    } else {
        flat_layer(layer.drop_last()) + flat_neuron(layer.last())
    }
}

/// The parameters of a network, layer after layer.
pub open spec fn flat_network(layers: Seq<Seq<NeuronView>>) -> Seq<u32>
    decreases layers.len(),
{
    if layers.len() == 0 {
        Seq::empty()
    } else {
        flat_network(layers.drop_last()) + flat_layer(layers.last())
    }
}

/// A layer of `outputs` neurons that each weigh `inputs` inputs.
pub open spec fn layer_shaped(layer: Seq<NeuronView>, inputs: nat, outputs: nat) -> bool {
    &&& layer.len() == outputs
    &&& forall|j: int| 0 <= j < layer.len() ==> (#[trigger] layer[j]).weights.len() == inputs
}

/// A network of the given topology: one layer for every two neighbouring
/// entries, with as many inputs as the first of the two has neurons and as
/// many neurons as the second.
pub open spec fn shaped(layers: Seq<Seq<NeuronView>>, topology: Seq<LayerTopology>) -> bool {
    &&& layers.len() == if topology.len() == 0 {
        0
    } else {
        topology.len() - 1
    }
    &&& forall|k: int|
        0 <= k < layers.len() ==> layer_shaped(
            #[trigger] layers[k],
            topology[k].neurons as nat,
            topology[k + 1].neurons as nat,
        )
}

/// How many parameters a network of the given topology has: for every
/// layer, a bias and one weight per input for each of its neurons.
pub open spec fn parameter_count(topology: Seq<LayerTopology>) -> nat
    decreases topology.len(),
{
    if topology.len() < 2 {
        0
    } else {
        parameter_count(topology.drop_last()) + (topology.last().neurons * (topology[topology.len() - 2].neurons
            + 1)) as nat
    }
}

/// A layer flattens to a bias and a weight per input for each neuron.
pub proof fn lemma_flat_layer_len(layer: Seq<NeuronView>, inputs: nat, outputs: nat)
    requires
        layer_shaped(layer, inputs, outputs),
    ensures
        flat_layer(layer).len() == outputs * (inputs + 1),
    decreases layer.len(),
{
    if layer.len() > 0 {
        lemma_flat_layer_len(layer.drop_last(), inputs, (outputs - 1) as nat);
        assert((outputs - 1) * (inputs + 1) + (inputs + 1) == outputs * (inputs + 1)) by (nonlinear_arith);
    } else {
        assert(outputs * (inputs + 1) == 0) by (nonlinear_arith)
            requires
                outputs == 0,
        ;
    }
}

/// A network flattens to as many parameters as its topology counts.
pub proof fn lemma_flat_network_len(layers: Seq<Seq<NeuronView>>, topology: Seq<LayerTopology>)
    requires
        shaped(layers, topology),
    ensures
        flat_network(layers).len() == parameter_count(topology),
    decreases layers.len(),
{
    if layers.len() > 0 {
        let fewer = topology.drop_last();
        assert(shaped(layers.drop_last(), fewer)) by {
            assert forall|k: int| 0 <= k < layers.len() - 1 implies layer_shaped(
                #[trigger] layers.drop_last()[k],
                fewer[k].neurons as nat,
                fewer[k + 1].neurons as nat,
            ) by {
                assert(layers.drop_last()[k] == layers[k]);
            }
        }
        lemma_flat_network_len(layers.drop_last(), fewer);
        let k = layers.len() - 1;
        assert(layer_shaped(layers[k], topology[k].neurons as nat, topology[k + 1].neurons as nat));
        lemma_flat_layer_len(layers.last(), topology[k].neurons as nat, topology[k + 1].neurons as nat);
    }
}

/// Flattening a layer loses nothing: two layers of one shape with the same
/// parameters are the same layer.
pub proof fn lemma_flat_layer_decides(first: Seq<NeuronView>, second: Seq<NeuronView>, inputs: nat, outputs: nat)
    requires
        layer_shaped(first, inputs, outputs),
        layer_shaped(second, inputs, outputs),
        flat_layer(first) == flat_layer(second),
    ensures
        first == second,
    decreases outputs,
{
    if outputs > 0 {
        let a = first.drop_last();
        let b = second.drop_last();
        let fewer = (outputs - 1) as nat;
        lemma_flat_layer_len(a, inputs, fewer);
        lemma_flat_layer_len(b, inputs, fewer);
        let cut = flat_layer(a).len() as int;
        let whole = flat_layer(first);
        assert(flat_layer(a) =~= whole.subrange(0, cut));
        assert(flat_layer(b) =~= whole.subrange(0, cut));
        assert(flat_neuron(first.last()) =~= whole.subrange(cut, whole.len() as int));
        assert(flat_neuron(second.last()) =~= whole.subrange(cut, whole.len() as int));
        lemma_flat_layer_decides(a, b, inputs, fewer);
        let x = first.last();
        let y = second.last();
        assert(x.bias == flat_neuron(x)[0]);
        assert(y.bias == flat_neuron(y)[0]);
        assert(x.weights =~= flat_neuron(x).subrange(1, inputs as int + 1));
        assert(y.weights =~= flat_neuron(y).subrange(1, inputs as int + 1));
        assert(x == y);
        assert(first =~= a.push(x));
        assert(second =~= b.push(y));
    } else {
        assert(first =~= second);
    }
}

/// Flattening a network loses nothing: two networks of one topology with
/// the same parameters are the same network. So the parameters and the
/// topology together say which network `Network::random` builds.
pub proof fn lemma_flat_network_decides(
    first: Seq<Seq<NeuronView>>,
    second: Seq<Seq<NeuronView>>,
    topology: Seq<LayerTopology>,
)
    requires
        shaped(first, topology),
        shaped(second, topology),
        flat_network(first) == flat_network(second),
    ensures
        first == second,
    decreases first.len(),
{
    if first.len() > 0 {
        let fewer = topology.drop_last();
        let a = first.drop_last();
        let b = second.drop_last();
        let k = first.len() - 1;
        assert(shaped(a, fewer)) by {
            assert forall|i: int| 0 <= i < a.len() implies layer_shaped(
                #[trigger] a[i],
                fewer[i].neurons as nat,
                fewer[i + 1].neurons as nat,
            ) by {
                assert(a[i] == first[i]);
            }
        }
        assert(shaped(b, fewer)) by {
            assert forall|i: int| 0 <= i < b.len() implies layer_shaped(
                #[trigger] b[i],
                fewer[i].neurons as nat,
                fewer[i + 1].neurons as nat,
            ) by {
                assert(b[i] == second[i]);
            }
        }
        lemma_flat_network_len(a, fewer);
        lemma_flat_network_len(b, fewer);
        let cut = flat_network(a).len() as int;
        let whole = flat_network(first);
        assert(flat_network(a) =~= whole.subrange(0, cut));
        assert(flat_network(b) =~= whole.subrange(0, cut));
        assert(flat_layer(first.last()) =~= whole.subrange(cut, whole.len() as int));
        assert(flat_layer(second.last()) =~= whole.subrange(cut, whole.len() as int));
        lemma_flat_network_decides(a, b, fewer);
        assert(layer_shaped(first[k], topology[k].neurons as nat, topology[k + 1].neurons as nat));
        assert(layer_shaped(second[k], topology[k].neurons as nat, topology[k + 1].neurons as nat));
        lemma_flat_layer_decides(first.last(), second.last(), topology[k].neurons as nat, topology[k + 1].neurons as nat);
        assert(first =~= a.push(first.last()));
        assert(second =~= b.push(second.last()));
    } else {
        assert(first =~= second);
    }
}

/// A topology counts at least as many parameters as any of its beginnings.
pub proof fn lemma_parameter_count_grows(topology: Seq<LayerTopology>, k: int)
    requires
        0 <= k <= topology.len(),
    ensures
        parameter_count(topology.take(k)) <= parameter_count(topology),
    decreases topology.len() - k,
{
    if k < topology.len() {
        lemma_parameter_count_grows(topology, k + 1);
        let longer = topology.take(k + 1);
        assert(longer.drop_last() =~= topology.take(k));
        if longer.len() >= 2 {
            assert(longer.last().neurons * (longer[longer.len() - 2].neurons + 1) >= 0) by (nonlinear_arith);
        } else {
            assert(topology.take(k).len() < 2);
        }
    } else {
        assert(topology.take(k) =~= topology);
    }
}

/// One neuron: a bias and a weight for each input.
#[derive(Debug)]
pub struct Neuron {
    bias: u32,
    weights: Vec<u32>,
}

impl View for Neuron {
    type V = NeuronView;

    closed spec fn view(&self) -> NeuronView {
        NeuronView { bias: self.bias, weights: self.weights@ }
    }
}

impl Neuron {
    pub fn new(bias: u32, weights: Vec<u32>) -> (neuron: Neuron)
        ensures
            neuron@.bias == bias,
            neuron@.weights == weights@,
    {
        Neuron { bias, weights }
    }

    /// The bit pattern of the bias.
    pub fn bias(&self) -> (bias: u32)
        ensures
            bias == self@.bias,
    {
        self.bias
    }

    /// The bit patterns of the weights, one per input.
    pub fn weights(&self) -> (weights: &Vec<u32>)
        ensures
            weights@ == self@.weights,
    {
        &self.weights
    }

    /// Reads a neuron of `input_neurons` inputs from `draws` at `start`,
    /// if that many values are left there.
    fn read(draws: &[u32], start: usize, input_neurons: usize) -> (neuron: Option<Neuron>)
        requires
            start <= draws@.len(),
        ensures
            match neuron {
                Some(neuron) => {
                    &&& start + input_neurons + 1 <= draws@.len()
                    &&& neuron@.weights.len() == input_neurons
                    &&& flat_neuron(neuron@) == draws@.subrange(start as int, start + input_neurons + 1)
                },
                None => start + input_neurons + 1 > draws@.len(),
            },
    {
        if draws.len() - start <= input_neurons {
            return None;
        }
        let bias = draws[start];
        let mut weights: Vec<u32> = Vec::new();
        let mut k: usize = 0;
        while k < input_neurons
            invariant
                k <= input_neurons,
                start + input_neurons + 1 <= draws@.len() <= usize::MAX,
                weights@ == draws@.subrange(start + 1, start + 1 + k),
            decreases input_neurons - k,
        {
            weights.push(draws[start + 1 + k]);
            assert(weights@ =~= draws@.subrange(start + 1, start + 1 + k + 1));
            k += 1;
        }
        let neuron = Neuron { bias, weights };
        assert(flat_neuron(neuron@) =~= draws@.subrange(start as int, start + input_neurons + 1));
        Some(neuron)
    }

    /// The neuron of `input_neurons` inputs whose bias is the first of
    /// `draws` and whose weights are the rest, in order. There must be
    /// exactly one draw for the bias and one for each input.
    pub fn random(draws: &[u32], input_neurons: usize) -> (neuron: Option<Neuron>)
        ensures
            match neuron {
                Some(neuron) => {
                    &&& draws@.len() == input_neurons + 1
                    &&& neuron@.weights.len() == input_neurons
                    &&& flat_neuron(neuron@) == draws@
                },
                None => draws@.len() != input_neurons + 1,
            },
    {
        match Neuron::read(draws, 0, input_neurons) {
            Some(neuron) => if draws.len() - input_neurons == 1 {
                assert(draws@.subrange(0, input_neurons + 1) =~= draws@);
                Some(neuron)
            } else {
                None
            },
            None => None,
        }
    }

    /// Writes the parameters of the neuron behind what `flat` holds.
    fn append_to(&self, flat: &mut Vec<u32>)
        ensures
            final(flat)@ == old(flat)@ + flat_neuron(self@),
    {
        flat.push(self.bias);
        let mut k: usize = 0;
        while k < self.weights.len()
            invariant
                k <= self.weights@.len(),
                flat@ == old(flat)@ + seq![self.bias] + self.weights@.take(k as int),
            decreases self.weights@.len() - k,
        {
            flat.push(self.weights[k]);
            assert(self.weights@.take(k + 1) =~= self.weights@.take(k as int).push(self.weights@[k as int]));
            k += 1;
        }
        assert(self.weights@.take(k as int) =~= self.weights@);
        assert(flat@ =~= old(flat)@ + flat_neuron(self@));
    }
}

/// The neurons of a run as plain values, in order.
pub open spec fn neuron_views(neurons: Seq<Neuron>) -> Seq<NeuronView> {
    Seq::new(neurons.len(), |i: int| neurons[i]@)
}

/// One layer: the neurons that read the same inputs.
#[derive(Debug)]
pub struct Layer {
    neurons: Vec<Neuron>,
}

impl View for Layer {
    type V = Seq<NeuronView>;

    closed spec fn view(&self) -> Seq<NeuronView> {
        neuron_views(self.neurons@)
    }
}

impl Layer {
    pub fn new(neurons: Vec<Neuron>) -> (layer: Layer)
        ensures
            layer@ == neuron_views(neurons@),
    {
        Layer { neurons }
    }

    /// The neurons, first to last.
    pub fn neurons(&self) -> (neurons: &Vec<Neuron>)
        ensures
            neuron_views(neurons@) == self@,
    {
        &self.neurons
    }

    /// Reads a layer of `output_neurons` neurons with `input_neurons`
    /// inputs each from `draws` at `start`, if that many values are left
    /// there, and says where the layer ends.
    fn read(draws: &[u32], start: usize, input_neurons: usize, output_neurons: usize) -> (read: Option<
        (Layer, usize),
    >)
        requires
            start <= draws@.len(),
        ensures
            match read {
                Some((layer, end)) => {
                    &&& end == start + output_neurons * (input_neurons + 1)
                    &&& end <= draws@.len()
                    &&& layer_shaped(layer@, input_neurons as nat, output_neurons as nat)
                    &&& flat_layer(layer@) == draws@.subrange(
                        start as int,
                        start + output_neurons * (input_neurons + 1),
                    )
                },
                None => start + output_neurons * (input_neurons + 1) > draws@.len(),
            },
    {
        let ghost each = input_neurons + 1;
        let total = draws.len();
        let mut neurons: Vec<Neuron> = Vec::new();
        let mut position: usize = start;
        let mut j: usize = 0;
        assert(0 * each == 0) by (nonlinear_arith);
        assert(flat_layer(neuron_views(neurons@)) =~= draws@.subrange(start as int, start as int));
        while j < output_neurons
            invariant
                j <= output_neurons,
                each == input_neurons + 1,
                start <= position <= total == draws@.len(),
                position == start + j * each,
                neurons@.len() == j,
                layer_shaped(neuron_views(neurons@), input_neurons as nat, j as nat),
                flat_layer(neuron_views(neurons@)) == draws@.subrange(start as int, position as int),
            decreases output_neurons - j,
        {
            let ghost before = neuron_views(neurons@);
            match Neuron::read(draws, position, input_neurons) {
                None => {
                    assert(start + output_neurons * each > draws@.len()) by (nonlinear_arith)
                        requires
                            start + j * each + each > draws@.len(),
                            j < output_neurons,
                            each > 0,
                    ;
                    return None;
                },
                Some(neuron) => {
                    neurons.push(neuron);
                    proof {
                        let after = neuron_views(neurons@);
                        assert(after.drop_last() =~= before);
                        assert(after.last() == neuron@);
                        assert((j + 1) * each == j * each + each) by (nonlinear_arith);
                        assert(flat_layer(after) =~= draws@.subrange(start as int, position + each));
                        assert forall|i: int| 0 <= i < after.len() implies (#[trigger] after[i]).weights.len()
                            == input_neurons by {
                            if i < j {
                                assert(after[i] == before[i]);
                            }
                        }
                    }
                    position = position + input_neurons + 1;
                    j += 1;
                },
            }
        }
        Some((Layer { neurons }, position))
    }

    /// The layer of `output_neurons` neurons with `input_neurons` inputs
    /// each whose parameters are `draws` in order: a bias and then the
    /// weights for one neuron after the other. There must be exactly as
    /// many draws as the layer has parameters.
    pub fn random(draws: &[u32], input_neurons: usize, output_neurons: usize) -> (layer: Option<Layer>)
        ensures
            match layer {
                Some(layer) => {
                    &&& draws@.len() == output_neurons * (input_neurons + 1)
                    &&& layer_shaped(layer@, input_neurons as nat, output_neurons as nat)
                    &&& flat_layer(layer@) == draws@
                },
                None => draws@.len() != output_neurons * (input_neurons + 1),
            },
    {
        match Layer::read(draws, 0, input_neurons, output_neurons) {
            Some((layer, end)) => if end == draws.len() {
                assert(draws@.subrange(0, draws@.len() as int) =~= draws@);
                Some(layer)
            } else {
                None
            },
            None => None,
        }
    }

    /// Writes the parameters of the layer behind what `flat` holds.
    fn append_to(&self, flat: &mut Vec<u32>)
        ensures
            final(flat)@ == old(flat)@ + flat_layer(self@),
    {
        let mut j: usize = 0;
        assert(self@.take(0) =~= Seq::<NeuronView>::empty());
        while j < self.neurons.len()
            invariant
                j <= self.neurons@.len(),
                self@.len() == self.neurons@.len(),
                flat@ == old(flat)@ + flat_layer(self@.take(j as int)),
            decreases self.neurons@.len() - j,
        {
            self.neurons[j].append_to(flat);
            proof {
                let next = self@.take(j + 1);
                assert(next.drop_last() =~= self@.take(j as int));
                assert(next.last() == self.neurons@[j as int]@);
                assert(flat@ =~= old(flat)@ + flat_layer(next));
            }
            j += 1;
        }
        assert(self@.take(j as int) =~= self@);
    }
}

/// The layers of a run as plain values, in order.
pub open spec fn layer_views(layers: Seq<Layer>) -> Seq<Seq<NeuronView>> {
    Seq::new(layers.len(), |i: int| layers[i]@)
}

/// A network: layers that feed one into the next.
#[derive(Debug)]
pub struct Network {
    layers: Vec<Layer>,
}

impl View for Network {
    type V = Seq<Seq<NeuronView>>;

    closed spec fn view(&self) -> Seq<Seq<NeuronView>> {
        layer_views(self.layers@)
    }
}

impl Network {
    pub fn new(layers: Vec<Layer>) -> (network: Network)
        ensures
            network@ == layer_views(layers@),
    {
        Network { layers }
    }

    /// The layers, first to last.
    pub fn layers(&self) -> (layers: &Vec<Layer>)
        ensures
            layer_views(layers@) == self@,
    {
        &self.layers
    }

    /// How many parameters a network of the given topology has, where the
    /// count fits the machine's word.
    pub fn parameter_count(layers: &[LayerTopology]) -> (count: Option<usize>)
        ensures
            match count {
                Some(count) => count == parameter_count(layers@),
                None => parameter_count(layers@) > usize::MAX,
            },
    {
        if layers.len() == 0 {
            return Some(0);
        }
        let mut count: usize = 0;
        let mut k: usize = 1;
        assert(layers@.take(1).len() == 1);
        while k < layers.len()
            invariant
                1 <= k <= layers@.len(),
                count == parameter_count(layers@.take(k as int)),
            decreases layers@.len() - k,
        {
            proof {
                assert(layers@.take(k + 1).drop_last() =~= layers@.take(k as int));
                lemma_parameter_count_grows(layers@, k + 1);
            }
            let each = match layers[k - 1].neurons.checked_add(1) {
                Some(each) => each,
                None => {
                    if layers[k].neurons == 0 {
                        assert(layers@[k as int].neurons * (layers@[k - 1].neurons + 1) == 0) by (nonlinear_arith)
                            requires
                                layers@[k as int].neurons == 0,
                        ;
                        k += 1;
                        continue ;
                    }
                    assert(layers@[k as int].neurons * (layers@[k - 1].neurons + 1) > usize::MAX)
                        by (nonlinear_arith)
                        requires
                            layers@[k as int].neurons >= 1,
                            layers@[k - 1].neurons + 1 > usize::MAX,
                    ;
                    return None;
                },
            };
            let more = match layers[k].neurons.checked_mul(each) {
                Some(more) => more,
                None => {
                    return None;
                },
            };
            count = match count.checked_add(more) {
                Some(count) => count,
                None => {
                    return None;
                },
            };
            k += 1;
        }
        assert(layers@.take(k as int) =~= layers@);
        Some(count)
    }

    /// The network of the given topology whose parameters are `draws` in
    /// order: layer after layer, neuron after neuron, each bias before its
    /// weights. There must be exactly as many draws as the topology counts
    /// parameters; a topology of fewer than two entries has no layer and
    /// takes no draw.
    pub fn random(draws: &[u32], layers: &[LayerTopology]) -> (network: Option<Network>)
        ensures
            match network {
                Some(network) => {
                    &&& draws@.len() == parameter_count(layers@)
                    &&& shaped(network@, layers@)
                    &&& flat_network(network@) == draws@
                },
                None => draws@.len() != parameter_count(layers@),
            },
    {
        let total = draws.len();
        let mut built: Vec<Layer> = Vec::new();
        if layers.len() == 0 {
            assert(flat_network(layer_views(built@)) =~= Seq::<u32>::empty());
            return if total == 0 {
                Some(Network { layers: built })
            } else {
                None
            };
        }
        let mut position: usize = 0;
        let mut k: usize = 1;
        assert(flat_network(layer_views(built@)) =~= draws@.subrange(0, 0));
        assert(layers@.take(1).len() == 1);
        while k < layers.len()
            invariant
                1 <= k <= layers@.len(),
                position <= total == draws@.len(),
                built@.len() == k - 1,
                position == parameter_count(layers@.take(k as int)),
                shaped(layer_views(built@), layers@.take(k as int)),
                flat_network(layer_views(built@)) == draws@.subrange(0, position as int),
            decreases layers@.len() - k,
        {
            let ghost before = layer_views(built@);
            let ghost longer = layers@.take(k + 1);
            proof {
                assert(longer.drop_last() =~= layers@.take(k as int));
                lemma_parameter_count_grows(layers@, k + 1);
            }
            match Layer::read(draws, position, layers[k - 1].neurons, layers[k].neurons) {
                None => {
                    return None;
                },
                Some((layer, end)) => {
                    built.push(layer);
                    proof {
                        let after = layer_views(built@);
                        assert(after.drop_last() =~= before);
                        assert(after.last() == layer@);
                        assert(flat_network(after) =~= draws@.subrange(0, end as int));
                        assert forall|i: int| 0 <= i < after.len() implies layer_shaped(
                            #[trigger] after[i],
                            longer[i].neurons as nat,
                            longer[i + 1].neurons as nat,
                        ) by {
                            if i < k - 1 {
                                assert(after[i] == before[i]);
                                assert(layer_shaped(
                                    before[i],
                                    layers@.take(k as int)[i].neurons as nat,
                                    layers@.take(k as int)[i + 1].neurons as nat,
                                ));
                            }
                        }
                    }
                    position = end;
                    k += 1;
                },
            }
        }
        assert(layers@.take(k as int) =~= layers@);
        if position == total {
            assert(draws@.subrange(0, total as int) =~= draws@);
            Some(Network { layers: built })
        } else {
            None
        }
    }

    /// Every parameter of the network as one run: layer after layer,
    /// neuron after neuron, each bias before its weights.
    pub fn weights(&self) -> (flat: Vec<u32>)
        ensures
            flat@ == flat_network(self@),
    {
        let mut flat: Vec<u32> = Vec::new();
        let mut i: usize = 0;
        assert(self@.take(0) =~= Seq::<Seq<NeuronView>>::empty());
        while i < self.layers.len()
            invariant
                i <= self.layers@.len(),
                self@.len() == self.layers@.len(),
                flat@ == flat_network(self@.take(i as int)),
            decreases self.layers@.len() - i,
        {
            self.layers[i].append_to(&mut flat);
            proof {
                let next = self@.take(i + 1);
                assert(next.drop_last() =~= self@.take(i as int));
                assert(next.last() == self.layers@[i as int]@);
            }
            i += 1;
        }
        assert(self@.take(i as int) =~= self@);
        flat
    }
}

} // verus!
