//! Where the produced mirror stores each kind of resource below its output
//! root: the landing page, the per-account WebFinger documents, the static
//! resource tree, and the redirect-map documents.

use vstd::prelude::*;

use crate::path_helper::component_to_url_safe;
use crate::path_helper::encoded_component;
use crate::path_helper::to_url_safe;
use crate::path_helper::to_url_safe_spec;

verus! {

/// The fixed layout of the output tree.
pub struct ResourcePath {
    pub index_html_path: String,
    pub webfinger_root_dir: String,
    pub static_root_dir: String,
    pub redirect_map_root_dir: String,
}

impl ResourcePath {
    /// Lays the four fixed roots out below `root_dir`.
    pub fn new(root_dir: String) -> (r: ResourcePath)
        ensures
            r.index_html_path@ == root_dir@ + "/index.html"@,
            r.webfinger_root_dir@ == root_dir@ + "/webfinger"@,
            r.static_root_dir@ == root_dir@ + "/static"@,
            r.redirect_map_root_dir@ == root_dir@ + "/map"@,
    {
        let mut index_html_path = root_dir.clone();
        index_html_path.append("/index.html");
        let mut webfinger_root_dir = root_dir.clone();
        webfinger_root_dir.append("/webfinger");
        let mut static_root_dir = root_dir.clone();
        static_root_dir.append("/static");
        let mut redirect_map_root_dir = root_dir.clone();
        redirect_map_root_dir.append("/map");
        ResourcePath { index_html_path, webfinger_root_dir, static_root_dir, redirect_map_root_dir }
    }

    /// The file below the WebFinger root that stores `subject`'s resource.
    pub fn webfinger_path(&self, subject: &str) -> (r: String)
        ensures
            r@ == self.webfinger_root_dir@ + seq!['/'] + encoded_component(subject@)
                + ".json"@,
    {
        let mut r = self.webfinger_root_dir.clone();
        r.append("/");
        let e = component_to_url_safe(subject);
        r.append(e.as_str());
        r.append(".json");
        proof {
            reveal_strlit("/");
            assert(r@ =~= self.webfinger_root_dir@ + seq!['/'] + encoded_component(subject@)
                + ".json"@);
        }
        r
    }

    /// The file below the map root that stores the redirect entries for one
    /// legacy `(domain, url_path)` pair.
    pub fn redirect_map_path(&self, domain: &str, url_path: &str) -> (r: String)
        ensures
            r@ == to_url_safe_spec(self.redirect_map_root_dir@, domain@, url_path@, "json"@),
    {
        to_url_safe(self.redirect_map_root_dir.as_str(), domain, url_path, "json")
    }
}

} // verus!
