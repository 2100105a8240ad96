use vstd::prelude::*;

use crate::attribute::SdfPath;
use crate::scene::{path_view, scene_applied, RenderSettingsDiff, Scene, SceneDiffItem};

verus! {

/// Nothing but the selection differs between `a` and `b`.
pub open spec fn same_records(a: Scene, b: Scene) -> bool {
    &&& a.meshes@ == b.meshes@
    &&& a.resolved_meshes@ == b.resolved_meshes@
    &&& a.sphere_lights@ == b.sphere_lights@
    &&& a.distant_lights@ == b.distant_lights@
    &&& a.cameras@ == b.cameras@
    &&& a.render_settings@ == b.render_settings@
    &&& a.time_code_range == b.time_code_range
}

/// The camera that product `product` of settings `settings` renders from, if
/// the settings, the product and the camera all exist.
pub open spec fn product_camera(s: Scene, settings: Seq<char>, product: Seq<char>) -> Option<
    Seq<char>,
> {
    if !s.render_settings@.contains_key(settings) {
        None
    } else if !s.render_settings@[settings].render_products@.contains_key(product) {
        None
    } else {
        let c = s.render_settings@[settings].render_products@[product].camera_path@;
        if s.cameras@.contains_key(c) {
            Some(c)
        } else {
            None
        }
    }
}

/// The end of the chain settings, product, camera of the current selection.
pub open spec fn chain_camera(s: Scene) -> Option<Seq<char>> {
    match (s.active_settings, s.active_product) {
        (Some(st), Some(pr)) => product_camera(s, st@, pr@),
        _ => None,
    }
}

/// The selection after a resolution pass: a selected settings record that no
/// longer exists is dropped with its product, a selected product that its
/// settings no longer hold is dropped, and the active camera is the end of the
/// chain when every hop exists.
pub open spec fn selection_resolved(old: Scene, new: Scene) -> bool {
    let settings_ok = old.active_settings is Some && old.render_settings@.contains_key(
        old.active_settings->0@,
    );
    let product_ok = settings_ok && old.active_product is Some
        && old.render_settings@[old.active_settings->0@].render_products@.contains_key(
        old.active_product->0@,
    );
    &&& same_records(old, new)
    &&& path_view(new.active_settings) == if settings_ok {
        path_view(old.active_settings)
    } else {
        None
    }
    &&& path_view(new.active_product) == if product_ok {
        path_view(old.active_product)
    } else {
        None
    }
    &&& path_view(new.active_camera) == chain_camera(old)
}

/// The scene after selecting render settings `path`: a known record becomes
/// the selection; anything else clears it. No product and no camera remain.
pub open spec fn settings_selected(old: Scene, path: Option<SdfPath>, new: Scene) -> bool {
    let known = path is Some && old.render_settings@.contains_key(path->0@);
    &&& same_records(old, new)
    &&& known ==> path_view(new.active_settings) == path_view(path)
    &&& !known ==> new.active_settings is None
    &&& new.active_product is None
    &&& new.active_camera is None
}

/// Settings `settings` exist and hold product `product`.
pub open spec fn product_known(s: Scene, settings: Seq<char>, product: Seq<char>) -> bool {
    s.render_settings@.contains_key(settings) && s.render_settings@[settings].render_products@.contains_key(product)
}

/// The scene after selecting render product `name`. With no settings selected
/// nothing changes. A product that the selected settings lack (or no product)
/// clears the product and the camera. A known product stays selected even when
/// its camera does not exist; the camera is then cleared.
pub open spec fn product_selected(old: Scene, name: Option<SdfPath>, new: Scene) -> bool {
    &&& same_records(old, new)
    &&& new.active_settings == old.active_settings
    &&& match name {
        None => new.active_product is None && new.active_camera is None,
        Some(n) => match old.active_settings {
            None => new.active_product == old.active_product && new.active_camera == old.active_camera,
            Some(st) => {
                &&& path_view(new.active_product) == if product_known(old, st@, n@) {
                    Some(n@)
                } else {
                    None
                }
                &&& path_view(new.active_camera) == product_camera(old, st@, n@)
            },
        },
    }
}

fn copy_path(p: &Option<SdfPath>) -> (r: Option<SdfPath>)
    ensures
        path_view(r) == path_view(*p),
{
    match p {
        Some(q) => Some(q.duplicate()),
        None => None,
    }
}

impl Scene {
    /// The camera of product `product` of settings `settings`, if the chain holds.
    fn find_product_camera(&self, settings: &SdfPath, product: &SdfPath) -> (r: Option<SdfPath>)
        requires
            self.wf(),
        ensures
            path_view(r) == product_camera(*self, settings@, product@),
    {
        match self.render_settings.get(settings) {
            None => None,
            Some(rs) => {
                match rs.render_products.get(product) {
                    None => None,
                    Some(pr) => {
                        if self.cameras.contains(&pr.camera_path) {
                            Some(pr.camera_path.duplicate())
                        } else {
                            None
                        }
                    },
                }
            },
        }
    }

    /// Selects a render-settings record; it succeeds only for a known record.
    pub fn select_render_settings(&mut self, path: Option<SdfPath>) -> (r: bool)
        requires
            old(self).wf(),
        ensures
            final(self).wf(),
            settings_selected(*old(self), path, *final(self)),
            r == (path is Some && old(self).render_settings@.contains_key(path->0@)),
    {
        self.active_product = None;
        self.active_camera = None;
        match path {
            Some(p) => {
                if self.render_settings.contains(&p) {
                    self.active_settings = Some(p);
                    true
                } else {
                    self.active_settings = None;
                    false
                }
            },
            None => {
                self.active_settings = None;
                false
            },
        }
    }

    /// Selects a product of the selected settings, making its camera active;
    /// it succeeds only for a product that the selected settings hold.
    pub fn select_render_product(&mut self, name: Option<SdfPath>) -> (r: bool)
        requires
            old(self).wf(),
        ensures
            final(self).wf(),
            product_selected(*old(self), name, *final(self)),
            r == (name is Some && old(self).active_settings is Some && product_known(
                *old(self),
                old(self).active_settings->0@,
                name->0@,
            )),
    {
        match name {
            None => {
                self.active_product = None;
                self.active_camera = None;
                false
            },
            Some(n) => {
                match &self.active_settings {
                    None => false,
                    Some(st) => {
                        let known = match self.render_settings.get(st) {
                            Some(rs) => rs.render_products.contains(&n),
                            None => false,
                        };
                        let camera = self.find_product_camera(st, &n);
                        if known {
                            self.active_product = Some(n);
                        } else {
                            self.active_product = None;
                        }
                        self.active_camera = camera;
                        known
                    },
                }
            },
        }
    }

    /// Revalidates the selection against the current records.
    pub fn resolve_selection(&mut self)
        requires
            old(self).wf(),
        ensures
            final(self).wf(),
            selection_resolved(*old(self), *final(self)),
    {
        let settings_ok = match &self.active_settings {
            Some(st) => self.render_settings.contains(st),
            None => false,
        };
        if !settings_ok {
            self.active_settings = None;
            self.active_product = None;
            self.active_camera = None;
            return;
        }
        let (product_ok, camera) = match (&self.active_settings, &self.active_product) {
            (Some(st), Some(pr)) => {
                let held = match self.render_settings.get(st) {
                    Some(rs) => rs.render_products.contains(pr),
                    None => false,
                };
                (held, self.find_product_camera(st, pr))
            },
            _ => (false, None),
        };
        if !product_ok {
            self.active_product = None;
        }
        self.active_camera = camera;
    }

    /// The selected render-settings path.
    pub fn active_render_settings_path(&self) -> (r: Option<SdfPath>)
        ensures
            path_view(r) == path_view(self.active_settings),
    {
        copy_path(&self.active_settings)
    }

    /// The selected render-product path.
    pub fn active_render_product_path(&self) -> (r: Option<SdfPath>)
        ensures
            path_view(r) == path_view(self.active_product),
    {
        copy_path(&self.active_product)
    }

    /// The paths of all render-settings records, each once.
    pub fn render_settings_paths(&self) -> (r: Vec<SdfPath>)
        requires
            self.wf(),
        ensures
            forall|i: int| 0 <= i < r@.len() ==> self.render_settings@.contains_key(#[trigger] r@[i]@),
            forall|k: Seq<char>| self.render_settings@.contains_key(k) ==> exists|i: int| 0 <= i < r@.len() && #[trigger] r@[i]@ == k,
            forall|i: int, j: int| 0 <= i < j < r@.len() ==> r@[i]@ != r@[j]@,
    {
        self.render_settings.keys()
    }

    /// The product paths of the selected render settings, each once; none when
    /// no existing settings record is selected.
    pub fn render_product_paths(&self) -> (r: Vec<SdfPath>)
        requires
            self.wf(),
        ensures
            ({
                let known = self.active_settings is Some && self.render_settings@.contains_key(self.active_settings->0@);
                &&& !known ==> r@.len() == 0
                &&& known ==> {
                    let products = self.render_settings@[self.active_settings->0@].render_products@;
                    &&& forall|i: int| 0 <= i < r@.len() ==> products.contains_key(#[trigger] r@[i]@)
                    &&& forall|k: Seq<char>| products.contains_key(k) ==> exists|i: int| 0 <= i < r@.len() && #[trigger] r@[i]@ == k
                    &&& forall|i: int, j: int| 0 <= i < j < r@.len() ==> r@[i]@ != r@[j]@
                }
            }),
    {
        match &self.active_settings {
            Some(st) => match self.render_settings.get(st) {
                Some(rs) => rs.render_products.keys(),
                None => Vec::new(),
            },
            None => Vec::new(),
        }
    }

    /// The time codes of the loaded source; `(0, 0)` when none is loaded.
    pub fn time_code_bounds(&self) -> (r: (i64, i64))
        ensures
            r == match self.time_code_range {
                Some(t) => (t.start, t.end),
                None => (0i64, 0i64),
            },
    {
        match self.time_code_range {
            Some(t) => (t.start, t.end),
            None => (0, 0),
        }
    }

    /// The record of the active camera; `None` means the default camera.
    pub fn active_camera_record(&self) -> (r: Option<&crate::records::CameraRecord>)
        requires
            self.wf(),
        ensures
            r is Some <==> (self.active_camera is Some && self.cameras@.contains_key(
                self.active_camera->0@,
            )),
            r is Some ==> *r->0 == self.cameras@[self.active_camera->0@],
    {
        match &self.active_camera {
            Some(c) => self.cameras.get(c),
            None => None,
        }
    }
}

/// Destroying the selected render-settings record clears the settings, the
/// product and the active camera at the next resolution pass.
pub proof fn lemma_destroyed_settings_clear_camera(s0: Scene, q: SdfPath, s1: Scene, s2: Scene)
    requires
        s0.active_settings is Some,
        q@ == s0.active_settings->0@,
        scene_applied(s0, SceneDiffItem::RenderSettings(RenderSettingsDiff::Destroy(q)), s1),
        selection_resolved(s1, s2),
    ensures
        s2.active_settings is None,
        s2.active_product is None,
        s2.active_camera is None,
{
}

} // verus!
