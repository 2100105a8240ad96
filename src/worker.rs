use vstd::prelude::*;

use crate::attribute::SdfPath;
use crate::scene::{empty_scene, meshes_resolved, scene_applied, Scene, SceneDiff, SceneDiffItem, TimeCodeRange};
use crate::selection::{product_selected, selection_resolved, settings_selected};

verus! {

/// A request to the worker that owns the scene.
#[derive(Debug)]
pub enum Command {
    LoadSource(String),
    SetTimeCursor(i64),
    SelectRenderSettings(Option<SdfPath>),
    SelectRenderProduct(Option<SdfPath>),
    Stop,
}

/// What the worker's host must do next on the worker's behalf.
#[derive(Debug)]
pub enum WorkerAction {
    /// Open the named source, then report with `source_opened`.
    OpenSource(String),
    /// Read the changes at this time code, then hand them to `advance`.
    Extract(i64),
    /// The snapshot changed and should be published.
    Publish,
    /// Stop the loop.
    Exit,
}

/// Applying the items `items` in order to `s0` may give `s1`.
pub open spec fn batch_applied(s0: Scene, items: Seq<SceneDiffItem>, s1: Scene) -> bool
    decreases items.len(),
{
    if items.len() == 0 {
        s1 == s0
    } else {
        exists|mid: Scene|
            batch_applied(s0, items.drop_last(), mid) && #[trigger] scene_applied(
                mid,
                items.last(),
                s1,
            )
    }
}

proof fn lemma_batch_step(s0: Scene, items: Seq<SceneDiffItem>, mid: Scene, s1: Scene)
    requires
        items.len() > 0,
        batch_applied(s0, items.drop_last(), mid),
        scene_applied(mid, items.last(), s1),
    ensures
        batch_applied(s0, items, s1),
{
}

/// The scene state of the worker, and whether a source is open.
#[derive(Debug)]
pub struct Worker {
    pub scene: Scene,
    pub source_open: bool,
}

impl Worker {
    pub open spec fn wf(&self) -> bool {
        self.scene.wf()
    }

    pub fn new() -> (r: Worker)
        ensures
            r.wf(),
            !r.source_open,
            empty_scene(r.scene, None),
    {
        Worker { scene: Scene::new(None), source_open: false }
    }

    /// Decides what a command asks for. Selections are carried out at once;
    /// loading and advancing need the host to reach the source first.
    pub fn handle(&mut self, cmd: Command) -> (r: WorkerAction)
        requires
            old(self).wf(),
        ensures
            final(self).wf(),
            final(self).source_open == old(self).source_open,
            match cmd {
                Command::LoadSource(id) => r == WorkerAction::OpenSource(id) && final(self).scene
                    == old(self).scene,
                Command::SetTimeCursor(t) => final(self).scene == old(self).scene && if old(
                    self,
                ).source_open {
                    r == WorkerAction::Extract(t)
                } else {
                    r is Publish
                },
                Command::SelectRenderSettings(p) => r is Publish && settings_selected(
                    old(self).scene,
                    p,
                    final(self).scene,
                ),
                Command::SelectRenderProduct(p) => r is Publish && product_selected(
                    old(self).scene,
                    p,
                    final(self).scene,
                ),
                Command::Stop => r is Exit && final(self).scene == old(self).scene,
            },
    {
        match cmd {
            Command::LoadSource(id) => WorkerAction::OpenSource(id),
            Command::SetTimeCursor(t) => {
                if self.source_open {
                    WorkerAction::Extract(t)
                } else {
                    WorkerAction::Publish
                }
            },
            Command::SelectRenderSettings(p) => {
                let _ = self.scene.select_render_settings(p);
                WorkerAction::Publish
            },
            Command::SelectRenderProduct(p) => {
                let _ = self.scene.select_render_product(p);
                WorkerAction::Publish
            },
            Command::Stop => WorkerAction::Exit,
        }
    }

    /// Starts over after a load: every record, resolved mesh and selection is
    /// dropped. `range` is `None` when the source could not be opened.
    pub fn source_opened(&mut self, range: Option<TimeCodeRange>)
        ensures
            final(self).wf(),
            final(self).source_open == (range is Some),
            empty_scene(final(self).scene, range),
    {
        self.source_open = range.is_some();
        self.scene = Scene::new(range);
    }

    /// Applies one evaluation's changes in order, then resolves the dirty
    /// meshes and revalidates the selection, all before anything is published.
    pub fn advance(&mut self, diff: SceneDiff)
        requires
            old(self).wf(),
        ensures
            final(self).wf(),
            final(self).source_open == old(self).source_open,
            exists|applied: Scene, meshed: Scene|
                batch_applied(old(self).scene, diff.items@, applied) && meshes_resolved(
                    applied,
                    meshed,
                ) && selection_resolved(meshed, final(self).scene),
    {
        let ghost all = diff.items@;
        let ghost start = self.scene;
        let mut rest = diff.items;
        let ghost mut done: nat = 0;
        while rest.len() > 0
            invariant
                self.scene.wf(),
                self.source_open == old(self).source_open,
                done <= all.len(),
                rest@ == all.skip(done as int),
                batch_applied(start, all.take(done as int), self.scene),
            decreases rest@.len(),
        {
            let item = rest.remove(0);
            assert(item == all[done as int]);
            let ghost mid = self.scene;
            self.scene.apply(item);
            proof {
                assert(scene_applied(mid, all[done as int], self.scene));
                assert(all.take((done + 1) as int).drop_last() =~= all.take(done as int));
                assert(all.take((done + 1) as int).last() == all[done as int]);
                let next = all.take((done + 1) as int);
                lemma_batch_step(start, next, mid, self.scene);
                assert(rest@ =~= all.skip((done + 1) as int));
                done = done + 1;
            }
        }
        proof {
            assert(all.take(done as int) =~= all);
        }
        self.scene.resolve_meshes();
        self.scene.resolve_selection();
    }
}

} // verus!
