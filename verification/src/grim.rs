//! The engine: what the compositor offers, which outputs there are, and what
//! to ask of them.

use crate::capture::{Output, OutputView};
use crate::error::{Error, ErrorView};
use crate::frame::{answers, begun, FrameCapture, FrameRequest};
use crate::geometry::Box;
use crate::output::{
    after_output_event, after_xdg_event, guess_output_logical_geometry, placeholder,
    with_guessed_logical_box, OutputEvent, OutputInfo, OutputInfoView, XdgOutputEvent,
};
use crate::search::{first_at, lemma_first_at, lemma_first_at_found};
use crate::text::same_text;
use crate::transform::Transform;
use vstd::prelude::*;
use vstd::string::StringExecFns;

verus! {

/// What the compositor advertises, as far as the engine cares.
#[derive(Debug, Clone, Copy, PartialEq, Eq, Structural)]
pub enum GlobalKind {
    Compositor,
    Shm,
    ScreencopyManager,
    XdgOutputManager,
    Output,
    /// Anything else, which is left alone.
    Other,
}

/// The kind of the global that goes by the given interface name.
pub open spec fn kind_of(interface: Seq<char>) -> GlobalKind {
    if interface == "wl_compositor"@ {
        GlobalKind::Compositor
    } else if interface == "wl_shm"@ {
        GlobalKind::Shm
    } else if interface == "zwlr_screencopy_manager_v1"@ {
        GlobalKind::ScreencopyManager
    } else if interface == "zxdg_output_manager_v1"@ {
        GlobalKind::XdgOutputManager
    } else if interface == "wl_output"@ {
        GlobalKind::Output
    } else {
        GlobalKind::Other
    }
}

/// The kind of the global that goes by the given interface name.
pub fn classify_global(interface: &str) -> (r: GlobalKind)
    ensures
        r == kind_of(interface@),
{
    if same_text(interface, "wl_compositor") {
        GlobalKind::Compositor
    } else if same_text(interface, "wl_shm") {
        GlobalKind::Shm
    } else if same_text(interface, "zwlr_screencopy_manager_v1") {
        GlobalKind::ScreencopyManager
    } else if same_text(interface, "zxdg_output_manager_v1") {
        GlobalKind::XdgOutputManager
    } else if same_text(interface, "wl_output") {
        GlobalKind::Output
    } else {
        GlobalKind::Other
    }
}

/// An output that the engine follows: the number of its protocol object and
/// what is known of it.
#[derive(Debug)]
pub struct OutputEntry {
    pub id: u32,
    pub info: OutputInfo,
}

impl View for OutputEntry {
    type V = (u32, OutputInfoView);

    open spec fn view(&self) -> (u32, OutputInfoView) {
        (self.id, self.info@)
    }
}

/// The tie between an output and the object that reports its logical side,
/// both by the numbers of their protocol objects.
#[derive(Debug, Clone, Copy, PartialEq, Eq, Structural)]
pub struct XdgLink {
    pub output: u32,
    pub xdg: u32,
}

/// The engine as contracts speak of it.
pub struct EngineView {
    /// Whether each of the compositor's services is bound.
    pub compositor: bool,
    pub shm: bool,
    pub screencopy_manager: bool,
    pub xdg_output_manager: bool,
    /// The outputs in the order in which they were bound.
    pub outputs: Seq<u32>,
    /// What is known of each output, by the output's number.
    pub infos: Seq<(u32, OutputInfoView)>,
    /// The ties between outputs and the objects of their logical side.
    pub links: Seq<XdgLink>,
    /// The lengths of the buffers kept for reuse.
    pub pool: Seq<Seq<u8>>,
}

/// The numbers of the outputs that something is known of, entry by entry.
pub open spec fn ids_of(infos: Seq<(u32, OutputInfoView)>) -> Seq<u32> {
    Seq::new(infos.len(), |i: int| infos[i].0)
}

/// The names of the outputs, entry by entry.
pub open spec fn names_of(infos: Seq<(u32, OutputInfoView)>) -> Seq<Seq<char>> {
    Seq::new(infos.len(), |i: int| infos[i].1.name)
}

/// The outputs that are tied, tie by tie.
pub open spec fn tied_outputs(links: Seq<XdgLink>) -> Seq<u32> {
    Seq::new(links.len(), |i: int| links[i].output)
}

/// The objects that outputs are tied to, tie by tie.
pub open spec fn tied_objects(links: Seq<XdgLink>) -> Seq<u32> {
    Seq::new(links.len(), |i: int| links[i].xdg)
}

/// Where the output `id` stands among `infos`: at the first entry of that
/// number, or at the length of `infos` if there is none.
pub open spec fn info_index(infos: Seq<(u32, OutputInfoView)>, id: u32) -> int {
    first_at(ids_of(infos), id)
}

/// Where the object `xdg` of an output's logical side stands among `links`: at
/// the first tie to it, or at the length of `links` if there is none.
pub open spec fn link_index(links: Seq<XdgLink>, xdg: u32) -> int {
    first_at(tied_objects(links), xdg)
}

/// Where the tie of the output `output` stands among `links`, or the length of
/// `links` if there is none.
pub open spec fn link_of_output(links: Seq<XdgLink>, output: u32) -> int {
    first_at(tied_outputs(links), output)
}

impl EngineView {
    /// Whether something is known of the output `id`.
    pub open spec fn knows(self, id: u32) -> bool {
        info_index(self.infos, id) < self.infos.len()
    }

    /// What is known of the output `id`.
    pub open spec fn info(self, id: u32) -> OutputInfoView
        recommends
            self.knows(id),
    {
        self.infos[info_index(self.infos, id)].1
    }

    /// The outputs with what is known of each, in the order in which they were
    /// bound.
    pub open spec fn snapshot(self) -> Seq<(u32, OutputInfoView)> {
        Seq::new(self.outputs.len(), |i: int| (self.outputs[i], self.info(self.outputs[i])))
    }

    /// The engine with `info` noted for the output `id`, in place of what was
    /// known of it or as a new entry.
    pub open spec fn with_info(self, id: u32, info: OutputInfoView) -> EngineView {
        let at = info_index(self.infos, id);
        EngineView {
            infos: if at < self.infos.len() {
                self.infos.update(at, (id, info))
            } else {
                self.infos.push((id, info))
            },
            ..self
        }
    }

    /// The engine with the output `output` tied to `xdg`, in place of the
    /// output's earlier tie or as a new one.
    pub open spec fn with_link(self, output: u32, xdg: u32) -> EngineView {
        let at = link_of_output(self.links, output);
        EngineView {
            links: if at < self.links.len() {
                self.links.update(at, XdgLink { output, xdg })
            } else {
                self.links.push(XdgLink { output, xdg })
            },
            ..self
        }
    }

    /// The engine after an event of the output `id`: the event is taken in
    /// where the output is known and dropped where it is not.
    pub open spec fn after_output_event(self, id: u32, event: OutputEvent) -> EngineView {
        if self.knows(id) {
            self.with_info(id, after_output_event(self.info(id), event))
        } else {
            self
        }
    }

    /// The engine after an event of the object `xdg`: the event goes to the
    /// output that the object is tied to, if there is one and it is known.
    pub open spec fn after_xdg_event(self, xdg: u32, event: XdgOutputEvent) -> EngineView {
        let at = link_index(self.links, xdg);
        if at < self.links.len() && self.knows(self.links[at].output) {
            let id = self.links[at].output;
            self.with_info(id, after_xdg_event(self.info(id), event))
        } else {
            self
        }
    }

    /// The engine with no output left.
    pub open spec fn without_outputs(self) -> EngineView {
        EngineView { outputs: Seq::empty(), infos: Seq::empty(), links: Seq::empty(), ..self }
    }

    /// The engine with the logical box of every output worked out that does
    /// not have one, where the compositor has no service that tells it.
    pub open spec fn with_logical_boxes(self) -> EngineView {
        if self.xdg_output_manager {
            self
        } else {
            EngineView {
                infos: Seq::new(
                    self.infos.len(),
                    |i: int|
                        if self.infos[i].1.logical_scale_known {
                            self.infos[i]
                        } else {
                            (self.infos[i].0, with_guessed_logical_box(self.infos[i].1))
                        },
                ),
                ..self
            }
        }
    }

    /// Where the first output of the given name stands in the snapshot, or the
    /// length of the snapshot if no output has that name.
    pub open spec fn named(self, name: Seq<char>) -> int {
        name_index(self.snapshot(), name)
    }
}

/// Where the first output of the given name stands among `outputs`, or the
/// length of `outputs` if there is none.
pub open spec fn name_index(outputs: Seq<(u32, OutputInfoView)>, name: Seq<char>) -> int {
    first_at(names_of(outputs), name)
}

/// The output `id` stands at `k` where no entry before `k` is of that number
/// and the entry at `k` is, or the entries end.
pub proof fn lemma_info_index(infos: Seq<(u32, OutputInfoView)>, id: u32, k: int)
    requires
        0 <= k <= infos.len(),
        forall|j: int| 0 <= j < k ==> (#[trigger] infos[j]).0 != id,
        k == infos.len() || infos[k].0 == id,
    ensures
        info_index(infos, id) == k,
{
    lemma_first_at(ids_of(infos), id, k);
}

/// Where `info_index` points, the entry is of the number asked for, and no
/// entry before is.
pub proof fn lemma_info_index_found(infos: Seq<(u32, OutputInfoView)>, id: u32)
    ensures
        0 <= info_index(infos, id) <= infos.len(),
        info_index(infos, id) < infos.len() ==> infos[info_index(infos, id)].0 == id,
        forall|j: int| 0 <= j < info_index(infos, id) ==> (#[trigger] infos[j]).0 != id,
{
    lemma_first_at_found(ids_of(infos), id);
    assert forall|j: int| 0 <= j < info_index(infos, id) implies (#[trigger] infos[j]).0 != id by {
        assert(ids_of(infos)[j] != id);
    }
}

/// Noting something for one output leaves what is known of any other output
/// as it was, and makes the one output known with what was noted.
pub proof fn lemma_with_info(e: EngineView, id: u32, info: OutputInfoView, other: u32)
    ensures
        e.with_info(id, info).knows(id),
        e.with_info(id, info).info(id) == info,
        other != id ==> e.with_info(id, info).knows(other) == e.knows(other),
        other != id && e.knows(other) ==> e.with_info(id, info).info(other) == e.info(other),
        e.with_info(id, info).infos.len() >= e.infos.len(),
{
    let at = info_index(e.infos, id);
    let after = e.with_info(id, info).infos;
    lemma_info_index_found(e.infos, id);
    lemma_info_index(after, id, at);
    if other != id {
        let k = info_index(e.infos, other);
        lemma_info_index_found(e.infos, other);
        if k < e.infos.len() {
            lemma_info_index(after, other, k);
        } else {
            lemma_info_index(after, other, after.len() as int);
        }
    }
}

/// The views of the entries.
pub open spec fn entry_views(entries: Seq<OutputEntry>) -> Seq<(u32, OutputInfoView)> {
    Seq::new(entries.len(), |i: int| entries[i]@)
}

/// The screen capture engine.
///
/// It holds what the compositor has told so far and decides what is asked of
/// the compositor next. It does not speak to the compositor itself.
pub struct Grim {
    compositor: bool,
    shm: bool,
    screencopy_manager: bool,
    xdg_output_manager: bool,
    /// The outputs, in the order in which they were bound.
    outputs: Vec<u32>,
    /// What is known of each output. The entries stand in the order in which
    /// their outputs first came, and are searched from the front: an output is
    /// found by its name as well as by its number, and the search by name has
    /// one answer only where the order of the entries is fixed.
    output_info: Vec<OutputEntry>,
    /// The ties between outputs and the objects of their logical side, in the
    /// order in which they were made. An event names the object, so a tie is
    /// found by either end.
    output_xdg_map: Vec<XdgLink>,
    buffer_pool: Vec<Vec<u8>>,
}

impl View for Grim {
    type V = EngineView;

    closed spec fn view(&self) -> EngineView {
        EngineView {
            compositor: self.compositor,
            shm: self.shm,
            screencopy_manager: self.screencopy_manager,
            xdg_output_manager: self.xdg_output_manager,
            outputs: self.outputs@,
            infos: entry_views(self.output_info@),
            links: self.output_xdg_map@,
            pool: Seq::new(self.buffer_pool@.len(), |i: int| self.buffer_pool@[i]@),
        }
    }
}

impl EngineView {
    /// What holds of every engine: each output that was bound is known, and
    /// no output has a scale below 1.
    pub open spec fn wf(self) -> bool {
        &&& forall|i: int| 0 <= i < self.outputs.len() ==> self.knows(#[trigger] self.outputs[i])
        &&& forall|i: int| 0 <= i < self.infos.len() ==> (#[trigger] self.infos[i]).1.scale >= 1
    }
}

/// What `refresh_outputs` asks for.
#[derive(Debug, Clone, Copy, PartialEq, Eq, Structural)]
pub enum RefreshStep {
    /// Make one round trip to the compositor, handing every event that comes
    /// to the engine, then ask again.
    Roundtrip,
    /// The outputs are up to date.
    Done,
}

impl EngineView {
    /// An engine that has heard nothing of the compositor.
    pub open spec fn fresh() -> EngineView {
        EngineView {
            compositor: false,
            shm: false,
            screencopy_manager: false,
            xdg_output_manager: false,
            outputs: Seq::empty(),
            infos: Seq::empty(),
            links: Seq::empty(),
            pool: Seq::empty(),
        }
    }

    /// The engine with a global of the given kind bound.
    pub open spec fn with_global(self, kind: GlobalKind) -> EngineView {
        EngineView {
            compositor: self.compositor || kind is Compositor,
            shm: self.shm || kind is Shm,
            screencopy_manager: self.screencopy_manager || kind is ScreencopyManager,
            xdg_output_manager: self.xdg_output_manager || kind is XdgOutputManager,
            ..self
        }
    }

    /// The engine with an output bound that was advertised under `name` and
    /// whose protocol object has the number `id`.
    pub open spec fn with_output(self, name: u32, id: u32) -> EngineView {
        EngineView { outputs: self.outputs.push(id), ..self.with_info(id, placeholder(name)) }
    }

    /// The outputs as they are listed for callers.
    pub open spec fn listed(self) -> Seq<OutputView> {
        Seq::new(self.outputs.len(), |i: int| self.snapshot()[i].1.listed())
    }
}

/// The views of the listed outputs.
pub open spec fn output_views(outputs: Seq<Output>) -> Seq<OutputView> {
    Seq::new(outputs.len(), |i: int| outputs[i]@)
}

impl Grim {
    /// An engine that has heard nothing of the compositor yet. Making one
    /// never fails.
    pub fn new() -> (r: Result<Grim, Error>)
        ensures
            r matches Ok(g) && g@ == EngineView::fresh() && g@.wf(),
    {
        let g = Grim {
            compositor: false,
            shm: false,
            screencopy_manager: false,
            xdg_output_manager: false,
            outputs: Vec::new(),
            output_info: Vec::new(),
            output_xdg_map: Vec::new(),
            buffer_pool: Vec::new(),
        };
        assert(g@.outputs =~= Seq::empty());
        assert(g@.infos =~= Seq::empty());
        assert(g@.links =~= Seq::empty());
        assert(g@.pool =~= Seq::empty());
        Ok(g)
    }

    /// Where the output `id` stands in the table.
    fn find_info(&self, id: u32) -> (r: usize)
        ensures
            r == info_index(self@.infos, id),
            r <= self.output_info@.len(),
            r < self.output_info@.len() ==> self.output_info@[r as int].id == id,
    {
        let mut i: usize = 0;
        while i < self.output_info.len()
            invariant
                i <= self.output_info@.len(),
                forall|j: int| 0 <= j < i ==> (#[trigger] self@.infos[j]).0 != id,
            decreases self.output_info@.len() - i,
        {
            if self.output_info[i].id == id {
                proof {
                    lemma_info_index(self@.infos, id, i as int);
                }
                return i;
            }
            i = i + 1;
        }
        proof {
            lemma_info_index(self@.infos, id, i as int);
        }
        i
    }

    /// Whether the compositor offers what the engine cannot do without:
    /// screencopy and shared memory.
    pub fn check_protocols(&self) -> (r: Result<(), Error>)
        ensures
            answers(
                r,
                if !self@.screencopy_manager {
                    Err(
                        ErrorView::UnsupportedProtocol(
                            "zwlr_screencopy_manager_v1 not available"@,
                        ),
                    )
                } else if !self@.shm {
                    Err(ErrorView::UnsupportedProtocol("wl_shm not available"@))
                } else {
                    Ok(())
                },
            ),
    {
        if !self.screencopy_manager {
            return Err(
                Error::UnsupportedProtocol(
                    String::from_str("zwlr_screencopy_manager_v1 not available"),
                ),
            );
        }
        if !self.shm {
            return Err(Error::UnsupportedProtocol(String::from_str("wl_shm not available")));
        }
        Ok(())
    }

    /// Whether shared memory is bound.
    pub fn has_shm(&self) -> (r: bool)
        ensures
            r == self@.shm,
    {
        self.shm
    }

    /// Whether screencopy is bound.
    pub fn has_screencopy(&self) -> (r: bool)
        ensures
            r == self@.screencopy_manager,
    {
        self.screencopy_manager
    }

    /// Whether the service that tells the logical side of outputs is bound.
    pub fn has_xdg_output_manager(&self) -> (r: bool)
        ensures
            r == self@.xdg_output_manager,
    {
        self.xdg_output_manager
    }

    /// Takes note of a global that the compositor advertises under the given
    /// interface name, and says of what kind it is. The caller binds a global
    /// of any kind but `Other`; an output it then reports with `add_output`,
    /// and after binding the service for the logical side it asks for the
    /// object of every output in `output_ids` and reports each with
    /// `link_xdg_output`.
    pub fn bind_global(&mut self, interface: &str) -> (kind: GlobalKind)
        ensures
            kind == kind_of(interface@),
            final(self)@ == old(self)@.with_global(kind),
    {
        let kind = classify_global(interface);
        match kind {
            GlobalKind::Compositor => {
                self.compositor = true;
            },
            GlobalKind::Shm => {
                self.shm = true;
            },
            GlobalKind::ScreencopyManager => {
                self.screencopy_manager = true;
            },
            GlobalKind::XdgOutputManager => {
                self.xdg_output_manager = true;
            },
            _ => {},
        }
        kind
    }

    /// Takes note of an output that was bound: advertised under `name`, with
    /// `id` as the number of its protocol object. Nothing is known of it yet
    /// but a placeholder. The answer says whether the object of its logical
    /// side is to be asked for right away, which is so when the service for it
    /// is bound already.
    pub fn add_output(&mut self, name: u32, id: u32) -> (ask_logical: bool)
        requires
            old(self)@.wf(),
        ensures
            final(self)@ == old(self)@.with_output(name, id),
            final(self)@.wf(),
            ask_logical == old(self)@.xdg_output_manager,
    {
        let at = self.find_info(id);
        let entry = OutputEntry { id, info: OutputInfo::new(name) };
        if at < self.output_info.len() {
            self.output_info.set(at, entry);
        } else {
            self.output_info.push(entry);
        }
        self.outputs.push(id);
        proof {
            let before = old(self)@;
            let after = before.with_output(name, id);
            assert(self@.infos =~= after.infos);
            assert(self@.outputs =~= after.outputs);
            assert(self@.pool =~= after.pool);
            lemma_with_info_wf(before, id, placeholder(name));
            assert forall|i: int| 0 <= i < after.outputs.len() implies after.knows(
                #[trigger] after.outputs[i],
            ) by {
                lemma_with_info(before, id, placeholder(name), after.outputs[i]);
            }
        }
        self.xdg_output_manager
    }

    /// What is known of the outputs, entry by entry.
    pub fn known_outputs(&self) -> (r: &Vec<OutputEntry>)
        ensures
            entry_views(r@) == self@.infos,
    {
        &self.output_info
    }

    /// Whether the output whose protocol object has the number `id` is bound.
    pub fn is_bound(&self, id: u32) -> (r: bool)
        ensures
            r == self@.outputs.contains(id),
    {
        let mut i: usize = 0;
        while i < self.outputs.len()
            invariant
                i <= self.outputs@.len(),
                forall|j: int| 0 <= j < i ==> self.outputs@[j] != id,
            decreases self.outputs@.len() - i,
        {
            if self.outputs[i] == id {
                return true;
            }
            i = i + 1;
        }
        false
    }

    /// How many outputs are bound.
    pub fn output_count(&self) -> (r: usize)
        ensures
            r == self@.outputs.len(),
    {
        self.outputs.len()
    }

    /// The numbers of the outputs, in the order in which they were bound.
    pub fn output_ids(&self) -> (r: Vec<u32>)
        ensures
            r@ == self@.outputs,
    {
        self.outputs.clone()
    }

    /// Where the tie of the output `output` stands.
    fn find_link_of_output(&self, output: u32) -> (r: usize)
        ensures
            r == link_of_output(self@.links, output),
            r <= self.output_xdg_map@.len(),
    {
        let mut i: usize = 0;
        while i < self.output_xdg_map.len()
            invariant
                i <= self.output_xdg_map@.len(),
                forall|j: int| 0 <= j < i ==> (#[trigger] tied_outputs(self@.links)[j]) != output,
            decreases self.output_xdg_map@.len() - i,
        {
            if self.output_xdg_map[i].output == output {
                proof {
                    lemma_first_at(tied_outputs(self@.links), output, i as int);
                }
                return i;
            }
            i = i + 1;
        }
        proof {
            lemma_first_at(tied_outputs(self@.links), output, i as int);
        }
        i
    }

    /// Where the first tie to the object `xdg` stands.
    fn find_link(&self, xdg: u32) -> (r: usize)
        ensures
            r == link_index(self@.links, xdg),
            r <= self.output_xdg_map@.len(),
    {
        let mut i: usize = 0;
        while i < self.output_xdg_map.len()
            invariant
                i <= self.output_xdg_map@.len(),
                forall|j: int| 0 <= j < i ==> (#[trigger] tied_objects(self@.links)[j]) != xdg,
            decreases self.output_xdg_map@.len() - i,
        {
            if self.output_xdg_map[i].xdg == xdg {
                proof {
                    lemma_first_at(tied_objects(self@.links), xdg, i as int);
                }
                return i;
            }
            i = i + 1;
        }
        proof {
            lemma_first_at(tied_objects(self@.links), xdg, i as int);
        }
        i
    }

    /// Takes note that the object `xdg` reports the logical side of the
    /// output `output`.
    pub fn link_xdg_output(&mut self, output: u32, xdg: u32)
        ensures
            final(self)@ == old(self)@.with_link(output, xdg),
            old(self)@.wf() ==> final(self)@.wf(),
    {
        let at = self.find_link_of_output(output);
        if at < self.output_xdg_map.len() {
            self.output_xdg_map.set(at, XdgLink { output, xdg });
        } else {
            self.output_xdg_map.push(XdgLink { output, xdg });
        }
        proof {
            let after = old(self)@.with_link(output, xdg);
            assert(self@.infos =~= after.infos);
            assert(self@.links =~= after.links);
            assert(self@.pool =~= after.pool);
        }
    }

    /// Takes in an event of the output whose protocol object has the number
    /// `id`. An event of an output that is not known is dropped.
    pub fn output_event(&mut self, id: u32, event: OutputEvent)
        requires
            old(self)@.wf(),
        ensures
            final(self)@ == old(self)@.after_output_event(id, event),
            final(self)@.wf(),
    {
        let at = self.find_info(id);
        if at < self.output_info.len() {
            self.output_info[at].info.apply_output_event(event);
            proof {
                let before = old(self)@;
                let info = after_output_event(before.info(id), event);
                assert(self@.infos =~= before.with_info(id, info).infos);
                assert(self@.pool =~= before.pool);
                lemma_with_info_wf(before, id, info);
            }
        }
    }

    /// Takes in an event of the object `xdg`, which reports the logical side
    /// of the output it is tied to. An event of an object that is tied to no
    /// known output is dropped.
    pub fn xdg_output_event(&mut self, xdg: u32, event: XdgOutputEvent)
        requires
            old(self)@.wf(),
        ensures
            final(self)@ == old(self)@.after_xdg_event(xdg, event),
            final(self)@.wf(),
    {
        let link = self.find_link(xdg);
        if link < self.output_xdg_map.len() {
            let id = self.output_xdg_map[link].output;
            let at = self.find_info(id);
            if at < self.output_info.len() {
                self.output_info[at].info.apply_xdg_event(event);
                proof {
                    let before = old(self)@;
                    let info = after_xdg_event(before.info(id), event);
                    assert(self@.infos =~= before.with_info(id, info).infos);
                    assert(self@.pool =~= before.pool);
                    lemma_with_info_wf(before, id, info);
                }
            }
        }
    }
}

/// What `refresh_outputs` answers after the given number of round trips, and
/// what becomes of the engine.
///
/// Before the first round trip the outputs are forgotten, to be learned
/// anew. After it there must be an output. Two more round trips let the
/// outputs report all of themselves. Then the logical boxes that the
/// compositor has not told are worked out.
pub open spec fn refresh_of(e: EngineView, roundtrips: u32) -> (
    Result<RefreshStep, ErrorView>,
    EngineView,
) {
    if roundtrips == 0 {
        (Ok(RefreshStep::Roundtrip), e.without_outputs())
    } else if roundtrips == 1 {
        if e.infos.len() == 0 {
            (Err(ErrorView::NoOutputs), e)
        } else {
            (Ok(RefreshStep::Roundtrip), e)
        }
    } else if roundtrips == 2 {
        (Ok(RefreshStep::Roundtrip), e)
    } else {
        (Ok(RefreshStep::Done), e.with_logical_boxes())
    }
}

/// The request for the whole of an output, without the pointer.
pub open spec fn whole_output_request(entry: (u32, OutputInfoView)) -> FrameRequest {
    FrameRequest {
        output_id: entry.0,
        region: Box { x: 0, y: 0, width: entry.1.width, height: entry.1.height },
        overlay_cursor: false,
    }
}

impl Grim {
    /// Brings the outputs up to date, one step at a time. Called first with 0
    /// and then, as long as it asks for a round trip, with the number of
    /// round trips made since.
    pub fn refresh_outputs(&mut self, roundtrips: u32) -> (r: Result<RefreshStep, Error>)
        requires
            old(self)@.wf(),
        ensures
            answers(r, refresh_of(old(self)@, roundtrips).0),
            final(self)@ == refresh_of(old(self)@, roundtrips).1,
            final(self)@.wf(),
    {
        if roundtrips == 0 {
            self.outputs.clear();
            self.output_info.clear();
            self.output_xdg_map.clear();
            proof {
                let after = old(self)@.without_outputs();
                assert(self@.infos =~= after.infos);
                assert(self@.pool =~= after.pool);
            }
            Ok(RefreshStep::Roundtrip)
        } else if roundtrips == 1 {
            if self.output_info.len() == 0 {
                Err(Error::NoOutputs)
            } else {
                Ok(RefreshStep::Roundtrip)
            }
        } else if roundtrips == 2 {
            Ok(RefreshStep::Roundtrip)
        } else {
            if !self.xdg_output_manager {
                let n = self.output_info.len();
                let mut i: usize = 0;
                while i < n
                    invariant
                        n == self.output_info@.len(),
                        n == old(self).output_info@.len(),
                        i <= n,
                        self.outputs == old(self).outputs,
                        self.output_xdg_map == old(self).output_xdg_map,
                        self.buffer_pool == old(self).buffer_pool,
                        self.compositor == old(self).compositor,
                        self.shm == old(self).shm,
                        self.screencopy_manager == old(self).screencopy_manager,
                        self.xdg_output_manager == old(self).xdg_output_manager,
                        !self.xdg_output_manager,
                        old(self)@.wf(),
                        forall|j: int|
                            0 <= j < i ==> (#[trigger] self.output_info@[j])@
                                == old(self)@.with_logical_boxes().infos[j],
                        forall|j: int|
                            i <= j < n ==> (#[trigger] self.output_info@[j])@ == old(
                                self,
                            ).output_info@[j]@,
                    decreases n - i,
                {
                    assert(old(self)@.infos[i as int].1.scale >= 1);
                    if !self.output_info[i].info.logical_scale_known {
                        guess_output_logical_geometry(&mut self.output_info[i].info);
                    }
                    i = i + 1;
                }
            }
            proof {
                let before = old(self)@;
                let after = before.with_logical_boxes();
                assert(self@.infos =~= after.infos);
                assert(self@.pool =~= after.pool);
                assert(ids_of(after.infos) =~= ids_of(before.infos));
                assert forall|k: int| 0 <= k < after.outputs.len() implies after.knows(
                    #[trigger] after.outputs[k],
                ) by {
                    assert(before.knows(before.outputs[k]));
                }
            }
            Ok(RefreshStep::Done)
        }
    }

    /// The outputs with what is known of each, in the order in which they
    /// were bound.
    pub fn collect_outputs_snapshot(&self) -> (r: Vec<OutputEntry>)
        requires
            self@.wf(),
        ensures
            entry_views(r@) == self@.snapshot(),
    {
        let mut r: Vec<OutputEntry> = Vec::new();
        let mut i: usize = 0;
        while i < self.outputs.len()
            invariant
                self@.wf(),
                i <= self.outputs@.len(),
                r@.len() == i,
                forall|j: int| 0 <= j < i ==> (#[trigger] r@[j])@ == self@.snapshot()[j],
            decreases self.outputs@.len() - i,
        {
            let id = self.outputs[i];
            let at = self.find_info(id);
            assert(self@.knows(self@.outputs[i as int]));
            r.push(OutputEntry { id, info: self.output_info[at].info.duplicate() });
            i = i + 1;
        }
        assert(entry_views(r@) =~= self@.snapshot());
        r
    }

    /// The outputs as callers see them: each by its name, its box (the
    /// logical one where it is known, else the physical one), its scale and
    /// its description. That there is no output is an error.
    pub fn get_outputs(&self) -> (r: Result<Vec<Output>, Error>)
        requires
            self@.wf(),
        ensures
            match r {
                Ok(outputs) => self@.outputs.len() > 0 && output_views(outputs@)
                    == self@.listed(),
                Err(e) => self@.outputs.len() == 0 && e@ == ErrorView::NoOutputs,
            },
    {
        let snapshot = self.collect_outputs_snapshot();
        assert(entry_views(snapshot@).len() == snapshot@.len());
        let mut outputs: Vec<Output> = Vec::new();
        let mut i: usize = 0;
        while i < snapshot.len()
            invariant
                entry_views(snapshot@) == self@.snapshot(),
                snapshot@.len() == self@.outputs.len(),
                i <= snapshot@.len(),
                outputs@.len() == i,
                forall|j: int| 0 <= j < i ==> (#[trigger] outputs@[j])@ == self@.listed()[j],
            decreases snapshot@.len() - i,
        {
            assert(snapshot@[i as int]@ == entry_views(snapshot@)[i as int]);
            outputs.push(snapshot[i].info.to_output());
            i = i + 1;
        }
        if outputs.len() == 0 {
            return Err(Error::NoOutputs);
        }
        assert(output_views(outputs@) =~= self@.listed());
        Ok(outputs)
    }

    /// How the output whose protocol object has the number `id` is turned:
    /// as it reported, or not at all where the output is not known.
    pub fn transform_of(&self, id: u32) -> (r: Transform)
        ensures
            r == if self@.knows(id) {
                self@.info(id).transform
            } else {
                Transform::Normal
            },
    {
        let at = self.find_info(id);
        if at < self.output_info.len() {
            self.output_info[at].info.transform
        } else {
            Transform::Normal
        }
    }

    /// Begins the capture of the whole of the first output of the given
    /// name, in its device pixels and without the pointer. That no output has
    /// the name is an error that hands the name back.
    pub fn capture_output(&self, output_name: &str) -> (r: Result<FrameCapture, Error>)
        requires
            self@.wf(),
        ensures
            answers(
                r,
                if self@.named(output_name@) >= self@.outputs.len() {
                    Err(ErrorView::OutputNotFound(output_name@))
                } else {
                    begun(
                        whole_output_request(self@.snapshot()[self@.named(output_name@)]),
                        self@.screencopy_manager,
                    )
                },
            ),
    {
        let snapshot = self.collect_outputs_snapshot();
        assert(entry_views(snapshot@).len() == snapshot@.len());
        let at = find_named(&snapshot, output_name);
        if at >= snapshot.len() {
            return Err(Error::OutputNotFound(String::from_str(output_name)));
        }
        assert(snapshot@[at as int]@ == entry_views(snapshot@)[at as int]);
        let info = &snapshot[at].info;
        let request = FrameRequest {
            output_id: snapshot[at].id,
            region: Box::new(0, 0, info.width, info.height),
            overlay_cursor: false,
        };
        FrameCapture::begin(request, self.screencopy_manager)
    }
}

/// Where the first output of the given name stands among `entries`, or their
/// number if none has the name.
pub fn find_named(entries: &Vec<OutputEntry>, name: &str) -> (r: usize)
    ensures
        r == name_index(entry_views(entries@), name@),
        r <= entries@.len(),
{
    let mut i: usize = 0;
    while i < entries.len()
        invariant
            i <= entries@.len(),
            forall|j: int|
                0 <= j < i ==> (#[trigger] names_of(entry_views(entries@))[j]) != name@,
        decreases entries@.len() - i,
    {
        if same_text(entries[i].info.name.as_str(), name) {
            proof {
                lemma_first_at(names_of(entry_views(entries@)), name@, i as int);
            }
            return i;
        }
        i = i + 1;
    }
    proof {
        lemma_first_at(names_of(entry_views(entries@)), name@, i as int);
    }
    i
}

/// A request that names no output fails, and the failure hands the name back.
pub proof fn law_unknown_output_is_not_found(e: EngineView, name: Seq<char>)
    requires
        forall|i: int| 0 <= i < e.outputs.len() ==> (#[trigger] e.snapshot()[i]).1.name != name,
    ensures
        e.named(name) == e.outputs.len(),
{
    lemma_first_at(names_of(e.snapshot()), name, e.outputs.len() as int);
}

/// The least capacity of a buffer that is kept for reuse: one mebibyte.
pub const MIN_POOL_SIZE: usize = 1048576;

/// The capacity of a buffer, by `Vec::capacity`: room for at least as many
/// bytes as the buffer holds. How much more is up to the allocator.
#[verifier::external_body]
fn capacity_of(buffer: &Vec<u8>) -> (r: usize)
    ensures
        r >= buffer@.len(),
{
    buffer.capacity()
}

/// The place of the first buffer that has room for `size` bytes, given the
/// capacity of each buffer in its order: the first capacity of `size` or more,
/// if there is one.
pub open spec fn first_fit_of(capacities: Seq<usize>, size: usize) -> Option<usize>
    decreases capacities.len(),
{
    if capacities.len() == 0 {
        None
    } else {
        match first_fit_of(capacities.drop_last(), size) {
            Some(at) => Some(at),
            None => if capacities.last() >= size {
                Some((capacities.len() - 1) as usize)
            } else {
                None
            },
        }
    }
}

/// The place of the first buffer that has room for `size` bytes.
pub fn first_fit(capacities: &Vec<usize>, size: usize) -> (r: Option<usize>)
    ensures
        r == first_fit_of(capacities@, size),
        match r {
            Some(at) => at < capacities@.len() && capacities@[at as int] >= size && forall|
                j: int,
            | 0 <= j < at ==> capacities@[j] < size,
            None => forall|j: int| 0 <= j < capacities@.len() ==> capacities@[j] < size,
        },
{
    let mut i: usize = 0;
    assert(capacities@.take(0) =~= Seq::<usize>::empty());
    while i < capacities.len()
        invariant
            i <= capacities@.len(),
            first_fit_of(capacities@.take(i as int), size) is None,
            forall|j: int| 0 <= j < i ==> capacities@[j] < size,
        decreases capacities@.len() - i,
    {
        proof {
            assert(capacities@.take(i + 1).drop_last() =~= capacities@.take(i as int));
            assert(capacities@.take(i + 1).last() == capacities@[i as int]);
        }
        if capacities[i] >= size {
            proof {
                lemma_first_fit_stays(capacities@, size, i + 1);
            }
            return Some(i);
        }
        i = i + 1;
    }
    assert(capacities@.take(i as int) =~= capacities@);
    None
}

/// A first fit among the capacities up to some place is the first fit among
/// all of them.
proof fn lemma_first_fit_stays(capacities: Seq<usize>, size: usize, upto: int)
    requires
        0 <= upto <= capacities.len(),
        first_fit_of(capacities.take(upto), size) is Some,
    ensures
        first_fit_of(capacities, size) == first_fit_of(capacities.take(upto), size),
    decreases capacities.len() - upto,
{
    if upto < capacities.len() {
        assert(capacities.take(upto + 1).drop_last() =~= capacities.take(upto));
        lemma_first_fit_stays(capacities, size, upto + 1);
    } else {
        assert(capacities.take(upto) =~= capacities);
    }
}

/// The buffers `pool` without the one at `at`, whose place the last one has
/// taken.
pub open spec fn without_buffer(pool: Seq<Seq<u8>>, at: int) -> Seq<Seq<u8>> {
    pool.update(at, pool.last()).drop_last()
}

impl Grim {
    /// Takes the buffer at `at` out of the pool and empties it, or makes a new
    /// one with room for `size` bytes where `at` is `None`.
    pub fn take_buffer(&mut self, at: Option<usize>, size: usize) -> (r: Vec<u8>)
        requires
            at matches Some(i) ==> i < old(self)@.pool.len(),
        ensures
            r@.len() == 0,
            final(self)@ == (EngineView {
                pool: match at {
                    Some(i) => without_buffer(old(self)@.pool, i as int),
                    None => old(self)@.pool,
                },
                ..old(self)@
            }),
    {
        match at {
            Some(i) => {
                let mut buffer = self.buffer_pool.swap_remove(i);
                buffer.clear();
                assert(self@.pool =~= without_buffer(old(self)@.pool, i as int));
                buffer
            },
            None => Vec::with_capacity(size),
        }
    }

    /// The capacities of the pooled buffers, one for each and in their order.
    fn capacities(&self) -> (r: Vec<usize>)
        ensures
            r@.len() == self@.pool.len(),
            forall|i: int| 0 <= i < r@.len() ==> #[trigger] r@[i] >= self@.pool[i].len(),
    {
        let mut r: Vec<usize> = Vec::new();
        let mut i: usize = 0;
        while i < self.buffer_pool.len()
            invariant
                i <= self.buffer_pool@.len(),
                r@.len() == i,
                forall|j: int| 0 <= j < i ==> #[trigger] r@[j] >= self@.pool[j].len(),
            decreases self.buffer_pool@.len() - i,
        {
            r.push(capacity_of(&self.buffer_pool[i]));
            i = i + 1;
        }
        r
    }

    /// An empty buffer: the first of the pool that has room for `size` bytes,
    /// which leaves the pool, or a new one. Which buffers have that room is
    /// up to the allocator, but one that holds `size` bytes or more has it.
    pub fn get_buffer(&mut self, size: usize) -> (r: Vec<u8>)
        ensures
            r@.len() == 0,
            final(self)@.pool == old(self)@.pool || exists|at: int|
                0 <= at < old(self)@.pool.len() && final(self)@.pool == without_buffer(
                    old(self)@.pool,
                    at,
                ),
            (exists|at: int| 0 <= at < old(self)@.pool.len() && old(self)@.pool[at].len() >= size)
                ==> final(self)@.pool.len() == old(self)@.pool.len() - 1,
            final(self)@ == (EngineView { pool: final(self)@.pool, ..old(self)@ }),
    {
        let capacities = self.capacities();
        let at = first_fit(&capacities, size);
        proof {
            if exists|k: int| 0 <= k < self@.pool.len() && self@.pool[k].len() >= size {
                let k = choose|k: int| 0 <= k < self@.pool.len() && self@.pool[k].len() >= size;
                assert(capacities@[k] >= self@.pool[k].len());
            }
        }
        self.take_buffer(at, size)
    }

    /// Keeps the buffer for reuse if its capacity is `capacity` and that is
    /// one mebibyte or more, and drops it else.
    pub fn keep_buffer(&mut self, buffer: Vec<u8>, capacity: usize)
        ensures
            final(self)@ == (EngineView {
                pool: if capacity >= MIN_POOL_SIZE {
                    old(self)@.pool.push(buffer@)
                } else {
                    old(self)@.pool
                },
                ..old(self)@
            }),
    {
        if capacity >= MIN_POOL_SIZE {
            self.buffer_pool.push(buffer);
            assert(self@.pool =~= old(self)@.pool.push(buffer@));
        }
    }

    /// Hands a buffer back for reuse. Only a buffer with a capacity of one
    /// mebibyte or more is kept, which a buffer that holds as many bytes
    /// always is; a smaller one is dropped.
    pub fn return_buffer(&mut self, buffer: Vec<u8>)
        ensures
            final(self)@.pool == old(self)@.pool || final(self)@.pool == old(self)@.pool.push(
                buffer@,
            ),
            buffer@.len() >= MIN_POOL_SIZE ==> final(self)@.pool == old(self)@.pool.push(buffer@),
            final(self)@ == (EngineView { pool: final(self)@.pool, ..old(self)@ }),
    {
        let capacity = capacity_of(&buffer);
        self.keep_buffer(buffer, capacity);
    }
}

/// Noting something with a scale of 1 or more for one output keeps an engine
/// well formed.
pub proof fn lemma_with_info_wf(e: EngineView, id: u32, info: OutputInfoView)
    requires
        e.wf(),
        info.scale >= 1,
    ensures
        e.with_info(id, info).wf(),
{
    let after = e.with_info(id, info);
    assert forall|i: int| 0 <= i < after.outputs.len() implies after.knows(
        #[trigger] after.outputs[i],
    ) by {
        lemma_with_info(e, id, info, after.outputs[i]);
        assert(e.knows(e.outputs[i]));
    }
    lemma_info_index_found(e.infos, id);
}

} // verus!
