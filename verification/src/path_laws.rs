//! What paths are made of, and how each part of them is written.

use crate::finding_laws::inside;
use crate::path::{
    child, file_name, file_name_is, named, parent, path_text, ComponentView, NameView, PathView,
};
use vstd::prelude::*;

verus! {

/// Each component of a path is written behind those around it, with a slash between them unless
/// there are none or they end in the root.
pub proof fn each_component_is_written(around: PathView, component: ComponentView)
    ensures
        ({
            let written = match component {
                ComponentView::Root => "/"@,
                ComponentView::Current => "."@,
                ComponentView::Parent => ".."@,
                ComponentView::Normal(name) => name.shown,
            };
            path_text(around.push(component)) == if around.len() == 0 || around.last() is Root {
                path_text(around) + written
            } else {
                path_text(around) + "/"@ + written
            }
        }),
        path_text(Seq::empty()).len() == 0,
{
    assert(around.push(component).drop_last() =~= around);
}

/// What is left of a path without its last component lies around it. Nothing lies around the root
/// and the empty path.
pub proof fn parents_lie_around(around: PathView, component: ComponentView)
    ensures
        component is Root ==> parent(around.push(component)) is None,
        !(component is Root) ==> parent(around.push(component)) == Some(around),
        parent(Seq::empty()) is None,
{
    assert(around.push(component).drop_last() =~= around);
}

/// Only an ordinary name at the end of a path names it, and only where it is text is it equal to a
/// text.
pub proof fn last_names_name_the_path(around: PathView, component: ComponentView, text: Seq<char>)
    ensures
        component matches ComponentView::Normal(name) ==> file_name(around.push(component)) == Some(
            name,
        ),
        !(component is Normal) ==> file_name(around.push(component)) is None,
        file_name(Seq::empty()) is None,
        file_name_is(around.push(component), text) <==> component == ComponentView::Normal(
            NameView { shown: text, raw: None },
        ),
        !file_name_is(Seq::empty(), text),
        child(around, named(text)) == inside(around, text),
{
}

} // verus!
