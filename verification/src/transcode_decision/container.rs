//! Container formats.
use super::helpers;
use crate::text;
use vstd::prelude::*;

verus! {

/// The extension of a path in lower case: what stands behind its last dot.
pub open spec fn extension(path: Seq<char>) -> Seq<char> {
    text::lowercase(text::after_last(path, '.'))
}

/// Whether the client plays the container: it lists it, or lists nothing and browsers do.
pub open spec fn container_supported(ext: Seq<char>, client: Seq<Seq<char>>) -> bool {
    if client.len() == 0 {
        helpers::browser_containers().contains(ext)
    } else {
        client.contains(ext)
    }
}

/// Whether the container needs transcoding: it has an extension that the client does not play.
pub open spec fn container_needs(path: Seq<char>, client: Seq<Seq<char>>) -> bool {
    extension(path).len() > 0 && !container_supported(extension(path), client)
}

/// The extension of `path` in lower case.
pub fn path_extension(path: &str) -> (r: String)
    ensures
        r@ == extension(path@),
{
    let ext = text::behind_last(path, '.');
    ext.as_str().to_lowercase()
}

fn is_container_supported(ext: &str, client_containers: &[String]) -> (r: bool)
    ensures
        r == container_supported(ext@, text::texts(client_containers@)),
{
    if client_containers.len() == 0 {
        helpers::is_browser_container(ext)
    } else {
        text::list_has(client_containers, ext)
    }
}

/// Whether the container format needs transcoding.
pub fn needs_container_transcode(path: &str, client_containers: &[String]) -> (r: bool)
    ensures
        r == container_needs(path@, text::texts(client_containers@)),
{
    let ext = path_extension(path);
    if ext.as_str().is_empty() {
        return false;
    }
    !is_container_supported(ext.as_str(), client_containers)
}

/// The extension of the container where it needs transcoding, or `None`.
pub fn container_transcode_reason(path: &str, client_containers: &[String]) -> (r: Option<String>)
    ensures
        text::opt_string(r) == if container_needs(path@, text::texts(client_containers@)) {
            Some(extension(path@))
        } else {
            None
        },
{
    let ext = path_extension(path);
    if ext.as_str().is_empty() {
        return None;
    }
    if is_container_supported(ext.as_str(), client_containers) {
        None
    } else {
        Some(ext)
    }
}

}
