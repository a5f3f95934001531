use music_player::library::{
    find_library, resolve_all, resolved, Library, PlaylistError, ResolveError,
};

struct Shelf {
    name: &'static str,
    items: Vec<(&'static str, u32)>,
}

impl Library for Shelf {
    type Audio = u32;

    fn name(&self) -> String {
        self.name.to_string()
    }

    fn find_by_id(&self, item: &String) -> Result<Option<u32>, String> {
        if item == "broken" {
            return Err("the shelf fell".to_string());
        }
        Ok(self.items.iter().find(|(id, _)| id == item).map(|(_, audio)| *audio))
    }
}

fn shelves() -> Vec<Shelf> {
    vec![
        Shelf { name: "fs", items: vec![("a", 1), ("b", 2)] },
        Shelf { name: "web", items: vec![("a", 10)] },
    ]
}

fn id(library: &str, item: &str) -> (String, String) {
    (library.to_string(), item.to_string())
}

#[test]
fn resolves_in_order_and_leaves_out_what_is_not_there() {
    let libs = shelves();
    assert_eq!(
        Ok(vec![10, 2, 1]),
        resolve_all(&libs, &vec![id("web", "a"), id("fs", "b"), id("fs", "zzz"), id("fs", "a")])
    );
    assert_eq!(Ok(vec![]), resolve_all(&libs, &vec![]));
}

#[test]
fn a_missing_library_is_an_error() {
    let libs = shelves();
    assert_eq!(
        Err(ResolveError::Playlist(PlaylistError::MissingLibrary("tape".to_string()))),
        resolve_all(&libs, &vec![id("fs", "a"), id("tape", "a"), id("fs", "broken")])
    );
}

#[test]
fn the_first_identity_without_a_library_decides() {
    let libs = shelves();
    assert_eq!(
        Err(ResolveError::Playlist(PlaylistError::MissingLibrary("tape".to_string()))),
        resolve_all(&libs, &vec![id("tape", "broken"), id("fs", "broken"), id("disc", "a")])
    );
    assert_eq!(
        Err(ResolveError::Playlist(PlaylistError::MissingLibrary("disc".to_string()))),
        resolve_all(&libs, &vec![id("fs", "b"), id("disc", "a"), id("tape", "a")])
    );
}

#[test]
fn a_failed_lookup_is_an_error() {
    let libs = shelves();
    assert_eq!(
        Err(ResolveError::Library("the shelf fell".to_string())),
        resolve_all(&libs, &vec![id("fs", "broken"), id("tape", "a")])
    );
}

#[test]
fn find_library_takes_the_first_of_a_name() {
    let mut libs = shelves();
    libs.push(Shelf { name: "fs", items: vec![] });
    assert_eq!(2, find_library(&libs, &"fs".to_string()).unwrap().items.len());
    assert!(find_library(&libs, &"FS".to_string()).is_none());
}

#[test]
fn resolved_takes_in_one_answer() {
    let mut items = vec![1];
    assert_eq!(Ok(()), resolved(Ok(Some(2)), &mut items));
    assert_eq!(Ok(()), resolved(Ok(None), &mut items));
    assert_eq!(
        Err(ResolveError::Library("x".to_string())),
        resolved(Err("x".to_string()), &mut items)
    );
    assert_eq!(vec![1, 2], items);
}
