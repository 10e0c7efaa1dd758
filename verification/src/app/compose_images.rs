//! Which images a project's compose file names, and whether all of them are present.
use vstd::prelude::*;

verus! {

/// What `serde_yaml` reads from a compose file's text: for each entry of its top-level
/// `services` mapping, in file order, the entry's `image` where that is a string; `None`
/// where the text is no YAML, or has no `services` mapping.
pub uninterp spec fn yaml_service_images(content: Seq<char>) -> Option<Seq<Option<Seq<char>>>>;

/// The plain values of a list of optional images.
pub open spec fn image_list_view(v: Seq<Option<String>>) -> Seq<Option<Seq<char>>> {
    v.map_values(
        |o: Option<String>|
            match o {
                Some(s) => Some(s@),
                None => None,
            },
    )
}

/// The plain values of what [`service_images`] returns.
pub open spec fn images_view(r: Option<Vec<Option<String>>>) -> Option<Seq<Option<Seq<char>>>> {
    match r {
        Some(v) => Some(image_list_view(v@)),
        None => None,
    }
}

/// Parses a compose file with `serde_yaml::from_str` into a `serde_yaml::Value`, then takes
/// `get("services")` as a mapping and, for each of its values in order (the mapping keeps
/// file order), `get("image")` as a string. Its result is named by [`yaml_service_images`]
/// of the text.
#[verifier::external_body]
pub(crate) fn service_images(content: &str) -> (r: Option<Vec<Option<String>>>)
    ensures
        images_view(r) == yaml_service_images(content@),
{
    let compose = serde_yaml::from_str::<serde_yaml::Value>(content).ok()?;
    let services = compose.get("services")?.as_mapping()?;
    Some(
        services.values().map(|s| s.get("image").and_then(|i| i.as_str()).map(|i| i.to_string())).collect(),
    )
}

/// The images named, in order; a service without an image names none.
pub open spec fn named_images_spec(images: Seq<Option<Seq<char>>>) -> Seq<Seq<char>>
    decreases images.len(),
{
    if images.len() == 0 {
        Seq::empty()
    } else {
        let rest = named_images_spec(images.drop_last());
        match images.last() {
            Some(i) => rest.push(i),
            None => rest,
        }
    }
}

/// The images a compose file's services name, in file order (a service without an image
/// names none; it needs nothing pulled); `None` where the file cannot be read as a compose
/// file with services.
pub fn compose_images(content: &str) -> (r: Option<Vec<String>>)
    ensures
        match yaml_service_images(content@) {
            None => r is None,
            Some(imgs) => r matches Some(v) && v@.map_values(|s: String| s@) == named_images_spec(
                imgs,
            ),
        },
{
    let images = match service_images(content) {
        Some(v) => v,
        None => return None,
    };
    let ghost all = image_list_view(images@);
    let mut r: Vec<String> = Vec::new();
    let mut i: usize = 0;
    while i < images.len()
        invariant
            i <= images@.len(),
            all == image_list_view(images@),
            r@.map_values(|s: String| s@) == named_images_spec(all.take(i as int)),
        decreases images.len() - i,
    {
        proof {
            assert(all.take(i + 1).drop_last() =~= all.take(i as int));
        }
        match &images[i] {
            Some(name) => {
                let ghost before = r@;
                r.push(name.clone());
                assert(r@.map_values(|s: String| s@) =~= before.map_values(|s: String| s@).push(
                    name@,
                ));
            },
            None => {},
        }
        i = i + 1;
    }
    assert(all.take(images@.len() as int) =~= all);
    Some(r)
}

/// Whether every image of a compose file is present, given the images it names and which
/// of them are present: false where the file gave no images list.
pub fn images_cached(images: &Option<Vec<String>>, present: &Vec<bool>) -> (b: bool)
    requires
        images matches Some(v) ==> present@.len() == v@.len(),
    ensures
        b == (images is Some && forall|i: int| 0 <= i < present@.len() ==> #[trigger] present@[i]),
{
    if images.is_none() {
        return false;
    }
    let mut i: usize = 0;
    while i < present.len()
        invariant
            i <= present@.len(),
            forall|k: int| 0 <= k < i ==> #[trigger] present@[k],
        decreases present.len() - i,
    {
        if !present[i] {
            return false;
        }
        i = i + 1;
    }
    true
}

} // verus!
