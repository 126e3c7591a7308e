use openpon::texture_manager::TextureManager;
use std::cell::Cell;
use std::rc::Rc;

#[test]
fn new_cache_is_empty() {
    let cache: TextureManager<Rc<u32>> = TextureManager::new();
    assert_eq!(cache.len(), 0);
}

#[test]
fn get_texture_loads_a_texture_once() {
    let loads = Cell::new(0);
    let mut cache = TextureManager::new();
    let load = || {
        loads.set(loads.get() + 1);
        Rc::new(String::from("pixels of panels"))
    };
    let first = cache.get_texture("res/panels.png", load);
    let second = cache.get_texture("res/panels.png", load);
    assert_eq!(loads.get(), 1);
    assert_eq!(cache.len(), 1);
    assert_eq!(*first, "pixels of panels");
    assert!(Rc::ptr_eq(&first, &second));
}

#[test]
fn get_texture_keeps_textures_apart_by_name() {
    let mut cache = TextureManager::new();
    let panels = cache.get_texture("res/panels.png", || Rc::new(1));
    let field = cache.get_texture("res/field.png", || Rc::new(2));
    let again = cache.get_texture("res/panels.png", || Rc::new(3));
    let upper = cache.get_texture("res/Panels.png", || Rc::new(4));
    assert_eq!(*panels, 1);
    assert_eq!(*field, 2);
    assert_eq!(*again, 1);
    assert_eq!(*upper, 4);
    assert_eq!(cache.len(), 3);
}

#[test]
fn get_texture_never_drops_a_texture() {
    let mut cache = TextureManager::new();
    for index in 0..100u32 {
        let name = format!("res/{}.png", index);
        assert_eq!(*cache.get_texture(&name, || Rc::new(index)), index);
    }
    assert_eq!(cache.len(), 100);
    for index in 0..100u32 {
        let name = format!("res/{}.png", index);
        assert_eq!(*cache.get_texture(&name, || Rc::new(1000)), index);
    }
    assert_eq!(cache.len(), 100);
}

#[test]
fn get_texture_hands_out_clones() {
    let mut cache = TextureManager::new();
    let mut first: Vec<u8> = cache.get_texture("a", || vec![1, 2, 3]);
    first.push(4);
    let second = cache.get_texture("a", || vec![9]);
    assert_eq!(second, vec![1, 2, 3]);
}
