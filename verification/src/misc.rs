//! The search for plugin modules among the files of the plugin directory.

use crate::config::{join_path, joined};
use vstd::prelude::*;
use vstd::string::*;

verus! {

/// Whether a file of this name is taken for a plugin module: the name ends
/// in `.so`.
pub open spec fn is_plugin_name(name: Seq<char>) -> bool {
    name.len() >= 3 && name[name.len() - 3] == '.' && name[name.len() - 2] == 's' && name[name.len()
        - 1] == 'o'
}

/// Whether a file of this name is taken for a plugin module.
pub fn is_plugin(name: &str) -> (taken: bool)
    ensures
        taken == is_plugin_name(name@),
{
    let len = name.unicode_len();
    len >= 3 && name.get_char(len - 3) == '.' && name.get_char(len - 2) == 's' && name.get_char(
        len - 1,
    ) == 'o'
}

/// The texts of `strings`, in their order.
pub open spec fn texts(strings: Seq<String>) -> Seq<Seq<char>> {
    Seq::new(strings.len(), |i: int| strings[i]@)
}

/// The plugin modules among the files `names` of the directory
/// `plugin_dir`: the path of every file whose name ends in `.so`, in the
/// order of `names`.
pub open spec fn plugins_in(plugin_dir: Seq<char>, names: Seq<Seq<char>>) -> Seq<Seq<char>> {
    names.filter(|name: Seq<char>| is_plugin_name(name)).map_values(
        |name: Seq<char>| joined(plugin_dir, name),
    )
}

/// The plugin modules among the files `names` of the directory
/// `plugin_dir`.
pub fn find_plugins(plugin_dir: &str, names: &Vec<String>) -> (plugins: Vec<String>)
    ensures
        texts(plugins@) == plugins_in(plugin_dir@, texts(names@)),
{
    let mut plugins: Vec<String> = Vec::new();
    let mut i: usize = 0;
    proof {
        reveal(Seq::filter);
        assert(texts(names@).take(0) =~= Seq::<Seq<char>>::empty());
        assert(texts(plugins@) =~= plugins_in(plugin_dir@, texts(names@).take(0)));
    }
    while i < names.len()
        invariant
            i <= names@.len(),
            texts(plugins@) == plugins_in(plugin_dir@, texts(names@).take(i as int)),
        decreases names@.len() - i,
    {
        let ghost before = texts(plugins@);
        let ghost seen = texts(names@).take(i as int);
        let ghost name = names@[i as int]@;
        proof {
            reveal(Seq::filter);
            let keep = |name: Seq<char>| is_plugin_name(name);
            let next = texts(names@).take(i + 1);
            assert(next.drop_last() =~= seen);
            assert(next.last() == name);
            if is_plugin_name(name) {
                assert(next.filter(keep) == seen.filter(keep).push(name));
                assert(plugins_in(plugin_dir@, next) =~= before.push(joined(plugin_dir@, name)));
            } else {
                assert(next.filter(keep) == seen.filter(keep));
            }
        }
        if is_plugin(names[i].as_str()) {
            plugins.push(join_path(plugin_dir, names[i].as_str()));
            assert(texts(plugins@) =~= before.push(joined(plugin_dir@, name)));
        }
        i += 1;
    }
    assert(texts(names@).take(i as int) =~= texts(names@));
    plugins
}

} // verus!
