//! Capability traits for turning plain values into inspectable interface
//! elements and whole windows, together with two ready-made windows: an
//! error message window and a bounded-number window.

use vstd::prelude::*;

use crate::builder::WindowBuilder;
use crate::cache::WindowCache;
use crate::constraint::DimensionConstraint;
use crate::constraint::SizeBound;
use crate::element::Element;
use crate::element::ElementKind;
use crate::element::ElementTree;
use crate::element::all_appended;
use crate::element::appended_matches;
use crate::units::Color;
use crate::units::InterfaceSettings;
use crate::units::ScreenSize;
use crate::window::Window;

verus! {

/// A value that can describe itself as a short text.
pub trait ElementDisplay {
    fn display(&self) -> String;
}

impl ElementDisplay for String {
    fn display(&self) -> (r: String)
        ensures
            r@ == self@,
    {
        self.clone()
    }
}

impl ElementDisplay for bool {
    fn display(&self) -> (r: String)
        ensures
            *self ==> r@ == "true"@,
            !*self ==> r@ == "false"@,
    {
        if *self {
            "true".to_owned()
        } else {
            "false".to_owned()
        }
    }
}

impl ElementDisplay for DimensionConstraint {
    fn display(&self) -> (r: String)
        ensures
            match *self {
                DimensionConstraint::Absolute(_) => r@ == "absolute"@,
                DimensionConstraint::Relative(_) => r@ == "relative"@,
                DimensionConstraint::RelativeToAvailable(_) => r@ == "relative to available"@,
                DimensionConstraint::Flexible => r@ == "flexible"@,
                DimensionConstraint::Super => r@ == "super"@,
            },
    {
        match self {
            DimensionConstraint::Absolute(_) => "absolute".to_owned(),
            DimensionConstraint::Relative(_) => "relative".to_owned(),
            DimensionConstraint::RelativeToAvailable(_) => "relative to available".to_owned(),
            DimensionConstraint::Flexible => "flexible".to_owned(),
            DimensionConstraint::Super => "super".to_owned(),
        }
    }
}

/// The bound given to the nodes that `to_element` synthesizes: full
/// width, one text row high.
fn prototype_bound() -> (r: SizeBound)
    ensures
        r.valid(),
{
    SizeBound {
        width: DimensionConstraint::Relative(100),
        minimum_width: Option::None,
        maximum_width: Option::None,
        height: DimensionConstraint::Absolute(16),
        minimum_height: Option::None,
        maximum_height: Option::None,
    }
}

/// What every `to_element` frame leaves untouched: the nodes below the
/// old length, except for the `children` list of the chosen parent, which
/// gains the new row at its end.
pub open spec fn row_frame_ok(
    olds: Seq<Element>,
    s: Seq<Element>,
    parent: Option<usize>,
    index: int,
) -> bool {
    match parent {
        Option::Some(p) => {
            &&& forall|j: int| 0 <= j < olds.len() && j != p as int ==> #[trigger] s[j] == olds[j]
            &&& s[p as int].children@ == olds[p as int].children@.push(index as usize)
            &&& s[p as int].kind == olds[p as int].kind
            &&& s[p as int].label == olds[p as int].label
        },
        Option::None => forall|j: int| 0 <= j < olds.len() ==> #[trigger] s[j] == olds[j],
    }
}

/// A value that can append an inspectable representation of itself to an
/// element tree: a row container whose first child is a label leaf, with
/// the value's own description behind it.
pub trait PrototypeElement {
    /// Appends this value's representation under `parent` and returns the
    /// index of the added row.
    fn to_element(&self, display: String, tree: &mut ElementTree, parent: Option<usize>) -> (index:
        usize)
        requires
            old(tree).wf(),
            parent is Some ==> (parent->0 as int) < old(tree).nodes@.len(),
        ensures
            final(tree).wf(),
            old(tree).nodes@.len() < final(tree).nodes@.len(),
            index as int == old(tree).nodes@.len(),
            final(tree).nodes@[index as int].kind == ElementKind::Container,
            final(tree).nodes@[index as int].children@.len() >= 1,
            final(tree).nodes@[index as int].children@[0] as int == index + 1,
            final(tree).nodes@[index as int + 1].kind == ElementKind::Leaf,
            final(tree).nodes@[index as int + 1].label == display,
            row_frame_ok(old(tree).nodes@, final(tree).nodes@, parent, index as int),
    ;
}

/// Appends a row container holding a label leaf and a value leaf.
fn labelled_row(
    display: String,
    value: String,
    tree: &mut ElementTree,
    parent: Option<usize>,
) -> (index: usize)
    requires
        old(tree).wf(),
        parent is Some ==> (parent->0 as int) < old(tree).nodes@.len(),
    ensures
        final(tree).wf(),
        final(tree).nodes@.len() == old(tree).nodes@.len() + 3,
        index as int == old(tree).nodes@.len(),
        final(tree).nodes@[index as int].kind == ElementKind::Container,
        final(tree).nodes@[index as int].children@.len() == 2,
        final(tree).nodes@[index as int].children@[0] as int == index + 1,
        final(tree).nodes@[index as int].children@[1] as int == index + 2,
        final(tree).nodes@[index as int + 1].kind == ElementKind::Leaf,
        final(tree).nodes@[index as int + 1].label == display,
        final(tree).nodes@[index as int + 2].kind == ElementKind::Leaf,
        final(tree).nodes@[index as int + 2].label == value,
        row_frame_ok(old(tree).nodes@, final(tree).nodes@, parent, index as int),
{
    let row = tree.add_element(
        Element::new(
            ElementKind::Container,
            String::new(),
            false,
            false,
            prototype_bound(),
            0,
            Option::None,
        ),
        parent,
    );
    tree.add_element(
        Element::new(
            ElementKind::Leaf,
            display,
            false,
            false,
            prototype_bound(),
            0,
            Option::None,
        ),
        Option::Some(row),
    );
    tree.add_element(
        Element::new(ElementKind::Leaf, value, false, false, prototype_bound(), 0, Option::None),
        Option::Some(row),
    );
    row
}

/// Appends a row container holding a single label leaf, for values whose
/// description is the label alone.
fn label_row(display: String, tree: &mut ElementTree, parent: Option<usize>) -> (index: usize)
    requires
        old(tree).wf(),
        parent is Some ==> (parent->0 as int) < old(tree).nodes@.len(),
    ensures
        final(tree).wf(),
        final(tree).nodes@.len() == old(tree).nodes@.len() + 2,
        index as int == old(tree).nodes@.len(),
        final(tree).nodes@[index as int].kind == ElementKind::Container,
        final(tree).nodes@[index as int].children@.len() == 1,
        final(tree).nodes@[index as int].children@[0] as int == index + 1,
        final(tree).nodes@[index as int + 1].kind == ElementKind::Leaf,
        final(tree).nodes@[index as int + 1].label == display,
        row_frame_ok(old(tree).nodes@, final(tree).nodes@, parent, index as int),
{
    let row = tree.add_element(
        Element::new(
            ElementKind::Container,
            String::new(),
            false,
            false,
            prototype_bound(),
            0,
            Option::None,
        ),
        parent,
    );
    tree.add_element(
        Element::new(
            ElementKind::Leaf,
            display,
            false,
            false,
            prototype_bound(),
            0,
            Option::None,
        ),
        Option::Some(row),
    );
    row
}

impl PrototypeElement for String {
    fn to_element(&self, display: String, tree: &mut ElementTree, parent: Option<usize>) -> (index:
        usize)
        ensures
            final(tree).nodes@.len() == old(tree).nodes@.len() + 3,
            final(tree).nodes@[index as int].children@.len() == 2,
            final(tree).nodes@[index as int + 2].label@ == self@,
    {
        let value = self.display();
        labelled_row(display, value, tree, parent)
    }
}

impl PrototypeElement for bool {
    fn to_element(&self, display: String, tree: &mut ElementTree, parent: Option<usize>) -> (index:
        usize)
        ensures
            final(tree).nodes@.len() == old(tree).nodes@.len() + 3,
            final(tree).nodes@[index as int].children@.len() == 2,
            *self ==> final(tree).nodes@[index as int + 2].label@ == "true"@,
            !*self ==> final(tree).nodes@[index as int + 2].label@ == "false"@,
    {
        let value = self.display();
        labelled_row(display, value, tree, parent)
    }
}

impl PrototypeElement for DimensionConstraint {
    /// A constraint renders as its label alone; the constraint's own
    /// value is not shown.
    fn to_element(&self, display: String, tree: &mut ElementTree, parent: Option<usize>) -> (index:
        usize)
        ensures
            final(tree).nodes@.len() == old(tree).nodes@.len() + 2,
            final(tree).nodes@[index as int].children@.len() == 1,
    {
        label_row(display, tree, parent)
    }
}

impl PrototypeElement for SizeBound {
    /// A size bound renders as its label alone, like a single constraint.
    fn to_element(&self, display: String, tree: &mut ElementTree, parent: Option<usize>) -> (index:
        usize)
        ensures
            final(tree).nodes@.len() == old(tree).nodes@.len() + 2,
            final(tree).nodes@[index as int].children@.len() == 1,
    {
        label_row(display, tree, parent)
    }
}

impl PrototypeElement for Color {
    /// A color renders as a label and a value leaf standing for the
    /// swatch; the swatch itself is drawn by the renderer, so the value
    /// leaf carries no text.
    fn to_element(&self, display: String, tree: &mut ElementTree, parent: Option<usize>) -> (index:
        usize)
        ensures
            final(tree).nodes@.len() == old(tree).nodes@.len() + 3,
            final(tree).nodes@[index as int].children@.len() == 2,
            final(tree).nodes@[index as int + 2].label@ == Seq::<char>::empty(),
    {
        labelled_row(display, String::new(), tree, parent)
    }
}

impl<T: PrototypeElement> PrototypeElement for Option<T> {
    /// A present value renders as the value itself would; an absent one
    /// as a labelled row reading "none".
    fn to_element(&self, display: String, tree: &mut ElementTree, parent: Option<usize>) -> (index:
        usize)
        ensures
            self is None ==> final(tree).nodes@[index as int + 2].label@ == "none"@,
    {
        match self {
            Option::Some(value) => value.to_element(display, tree, parent),
            Option::None => labelled_row(display, "none".to_owned(), tree, parent),
        }
    }
}

impl<T: PrototypeElement> PrototypeElement for Vec<T> {
    /// A vector renders as a row holding its label and one row per item,
    /// each labelled with the item's position.
    fn to_element(&self, display: String, tree: &mut ElementTree, parent: Option<usize>) -> (index:
        usize)
        ensures
            final(tree).nodes@[index as int].children@.len() == 1 + self@.len(),
    {
        let row = tree.add_element(
            Element::new(
                ElementKind::Container,
                String::new(),
                false,
                false,
                prototype_bound(),
                0,
                Option::None,
            ),
            parent,
        );
        tree.add_element(
            Element::new(
                ElementKind::Leaf,
                display,
                false,
                false,
                prototype_bound(),
                0,
                Option::None,
            ),
            Option::Some(row),
        );
        let ghost after_label = tree.nodes@;
        let count = self.len();
        let mut i: usize = 0;
        while i < count
            invariant
                count == self@.len(),
                tree.wf(),
                (row as int) < after_label.len(),
                after_label.len() <= tree.nodes@.len(),
                i <= count,
                row as int + 1 < after_label.len(),
                tree.nodes@[row as int].kind == after_label[row as int].kind,
                after_label[row as int].kind == ElementKind::Container,
                tree.nodes@[row as int].label == after_label[row as int].label,
                tree.nodes@[row as int].children@.len() == 1 + i,
                tree.nodes@[row as int].children@[0] == after_label[row as int].children@[0],
                after_label[row as int].children@.len() == 1,
                tree.nodes@[row as int + 1] == after_label[row as int + 1],
                forall|j: int|
                    0 <= j < after_label.len() && j != row as int
                        ==> #[trigger] tree.nodes@[j] == after_label[j],
            decreases count - i,
        {
            let item_label = i.to_string();
            self[i].to_element(item_label, tree, Some(row));
            i += 1;
        }
        row
    }
}

impl<T: PrototypeElement> PrototypeElement for &[T] {
    /// A slice renders as a row holding its label and one row per item,
    /// each labelled with the item's position.
    fn to_element(&self, display: String, tree: &mut ElementTree, parent: Option<usize>) -> (index:
        usize)
        ensures
            final(tree).nodes@[index as int].children@.len() == 1 + self@.len(),
    {
        let row = tree.add_element(
            Element::new(
                ElementKind::Container,
                String::new(),
                false,
                false,
                prototype_bound(),
                0,
                Option::None,
            ),
            parent,
        );
        tree.add_element(
            Element::new(
                ElementKind::Leaf,
                display,
                false,
                false,
                prototype_bound(),
                0,
                Option::None,
            ),
            Option::Some(row),
        );
        let ghost after_label = tree.nodes@;
        let count = self.len();
        let mut i: usize = 0;
        while i < count
            invariant
                count == self@.len(),
                tree.wf(),
                (row as int) < after_label.len(),
                after_label.len() <= tree.nodes@.len(),
                i <= count,
                row as int + 1 < after_label.len(),
                tree.nodes@[row as int].kind == after_label[row as int].kind,
                after_label[row as int].kind == ElementKind::Container,
                tree.nodes@[row as int].label == after_label[row as int].label,
                tree.nodes@[row as int].children@.len() == 1 + i,
                tree.nodes@[row as int].children@[0] == after_label[row as int].children@[0],
                after_label[row as int].children@.len() == 1,
                tree.nodes@[row as int + 1] == after_label[row as int + 1],
                forall|j: int|
                    0 <= j < after_label.len() && j != row as int
                        ==> #[trigger] tree.nodes@[j] == after_label[j],
            decreases count - i,
        {
            let item_label = i.to_string();
            self[i].to_element(item_label, tree, Some(row));
            i += 1;
        }
        row
    }
}

impl<T: PrototypeElement> PrototypeElement for std::rc::Rc<T> {
    /// A shared value renders as the value itself would.
    fn to_element(&self, display: String, tree: &mut ElementTree, parent: Option<usize>) -> (index:
        usize)
    {
        (**self).to_element(display, tree, parent)
    }
}

impl<T: PrototypeElement> PrototypeElement for std::sync::Arc<T> {
    /// A shared value renders as the value itself would.
    fn to_element(&self, display: String, tree: &mut ElementTree, parent: Option<usize>) -> (index:
        usize)
    {
        (**self).to_element(display, tree, parent)
    }
}

/// A value that can present itself as a whole window.
pub trait PrototypeWindow {
    fn to_window(
        &self,
        window_cache: &WindowCache,
        interface_settings: &InterfaceSettings,
        available_space: ScreenSize,
    ) -> (r: Window)
        requires
            available_space.valid(),
            interface_settings.valid(),
        ensures
            r.wf(),
    ;
}

/// The size bound of an error window: a fixed width within firm limits,
/// and a flexible height.
pub open spec fn spec_error_window_bound() -> SizeBound {
    SizeBound {
        width: DimensionConstraint::Absolute(400),
        minimum_width: Option::Some(DimensionConstraint::Absolute(300)),
        maximum_width: Option::Some(DimensionConstraint::Absolute(500)),
        height: DimensionConstraint::Flexible,
        minimum_height: Option::None,
        maximum_height: Option::None,
    }
}

/// The size bound of a number window.
pub open spec fn spec_number_window_bound() -> SizeBound {
    SizeBound {
        width: DimensionConstraint::Absolute(250),
        minimum_width: Option::Some(DimensionConstraint::Absolute(200)),
        maximum_width: Option::Some(DimensionConstraint::Absolute(300)),
        height: DimensionConstraint::Flexible,
        minimum_height: Option::None,
        maximum_height: Option::None,
    }
}

/// A closable window presenting one error message.
pub struct ErrorWindow {
    pub message: String,
}

impl ErrorWindow {
    pub fn new(message: String) -> (r: ErrorWindow)
        ensures
            r.message == message,
    {
        ErrorWindow { message }
    }
}

impl PrototypeWindow for ErrorWindow {
    /// A titled, closable, class-less window: the cache is never
    /// consulted, so the result is the same whatever the cache holds —
    /// size fresh from the bound, position centered.
    fn to_window(
        &self,
        window_cache: &WindowCache,
        interface_settings: &InterfaceSettings,
        available_space: ScreenSize,
    ) -> (r: Window)
        ensures
            r.window_class is None,
            r.closable,
            r.size_bound == spec_error_window_bound(),
            r.size.width as int == spec_error_window_bound().spec_window_width(
                available_space.width as int,
                interface_settings.scaling as int,
            ),
            r.size.height as int == spec_error_window_bound().spec_window_height(
                available_space.height as int,
                interface_settings.scaling as int,
            ),
            r.position.left as int == crate::builder::spec_built_left(
                Option::None,
                r.size.width as int,
                available_space.width as int,
            ),
            r.position.top as int == crate::builder::spec_built_top(
                Option::None,
                r.size.height as int,
                available_space.height as int,
            ),
            r.elements.nodes@.len() == 4,
            r.elements.nodes@[1].kind == ElementKind::DragButton,
            r.elements.nodes@[1].label@ == "Error"@,
            r.elements.nodes@[2].kind == ElementKind::CloseButton,
            r.elements.nodes@[3].kind == ElementKind::Leaf,
            r.elements.nodes@[3].label == self.message,
    {
        let text_bound = SizeBound {
            width: DimensionConstraint::Relative(100),
            minimum_width: Option::None,
            maximum_width: Option::None,
            height: DimensionConstraint::Absolute(14),
            minimum_height: Option::None,
            maximum_height: Option::None,
        };
        let text = Element::new(
            ElementKind::Leaf,
            self.message.clone(),
            false,
            false,
            text_bound,
            0,
            Option::None,
        );
        let window_bound = SizeBound {
            width: DimensionConstraint::Absolute(400),
            minimum_width: Option::Some(DimensionConstraint::Absolute(300)),
            maximum_width: Option::Some(DimensionConstraint::Absolute(500)),
            height: DimensionConstraint::Flexible,
            minimum_height: Option::None,
            maximum_height: Option::None,
        };
        let mut elements = ElementTree::new();
        elements.add_element(text, Option::None);
        let ghost content = elements.nodes@;
        let window = WindowBuilder::new()
            .with_title("Error".to_owned())
            .closable()
            .with_class_option(Option::None)
            .with_size_bound(window_bound)
            .with_elements(elements)
            .build(window_cache, interface_settings, available_space);
        proof {
            assert(all_appended(window.elements.nodes@, content, 3));
            assert(appended_matches(window.elements.nodes@, content, 3, 0));
        }
        window
    }
}

/// A closable window presenting one bounded numeric value with a slider.
pub struct NumberWindow {
    pub name: String,
    /// The externally observed value the slider follows.
    pub value: u64,
    pub minimum_value: u64,
    pub maximum_value: u64,
}

impl NumberWindow {
    pub fn new(name: String, value: u64, minimum_value: u64, maximum_value: u64) -> (r:
        NumberWindow)
        ensures
            r.name == name,
            r.value == value,
            r.minimum_value == minimum_value,
            r.maximum_value == maximum_value,
    {
        NumberWindow { name, value, minimum_value, maximum_value }
    }
}

impl PrototypeWindow for NumberWindow {
    /// A titled, closable, class-less window holding a headline and a
    /// slider leaf that observes the window's value.
    fn to_window(
        &self,
        window_cache: &WindowCache,
        interface_settings: &InterfaceSettings,
        available_space: ScreenSize,
    ) -> (r: Window)
        ensures
            r.window_class is None,
            r.closable,
            r.size_bound == spec_number_window_bound(),
            r.size.width as int == spec_number_window_bound().spec_window_width(
                available_space.width as int,
                interface_settings.scaling as int,
            ),
            r.size.height as int == spec_number_window_bound().spec_window_height(
                available_space.height as int,
                interface_settings.scaling as int,
            ),
            r.position.left as int == crate::builder::spec_built_left(
                Option::None,
                r.size.width as int,
                available_space.width as int,
            ),
            r.position.top as int == crate::builder::spec_built_top(
                Option::None,
                r.size.height as int,
                available_space.height as int,
            ),
            r.elements.nodes@.len() == 5,
            r.elements.nodes@[1].kind == ElementKind::DragButton,
            r.elements.nodes@[1].label == self.name,
            r.elements.nodes@[2].kind == ElementKind::CloseButton,
            r.elements.nodes@[3].kind == ElementKind::Leaf,
            r.elements.nodes@[3].label@ == "value"@,
            r.elements.nodes@[4].kind == ElementKind::Leaf,
            r.elements.nodes@[4].observed == Option::Some(self.value),
            r.elements.nodes@[4].focusable,
    {
        let headline = Element::new(
            ElementKind::Leaf,
            "value".to_owned(),
            false,
            false,
            prototype_bound(),
            0,
            Option::None,
        );
        // The slider leaf observes the external value: change-detection
        // polling through `update` reports when it moved.
        let slider = Element::new(
            ElementKind::Leaf,
            String::new(),
            true,
            true,
            prototype_bound(),
            0,
            Option::Some(self.value),
        );
        let window_bound = SizeBound {
            width: DimensionConstraint::Absolute(250),
            minimum_width: Option::Some(DimensionConstraint::Absolute(200)),
            maximum_width: Option::Some(DimensionConstraint::Absolute(300)),
            height: DimensionConstraint::Flexible,
            minimum_height: Option::None,
            maximum_height: Option::None,
        };
        let mut elements = ElementTree::new();
        elements.add_element(headline, Option::None);
        elements.add_element(slider, Option::None);
        let ghost content = elements.nodes@;
        let window = WindowBuilder::new()
            .with_title(self.name.clone())
            .closable()
            .with_class_option(Option::None)
            .with_size_bound(window_bound)
            .with_elements(elements)
            .build(window_cache, interface_settings, available_space);
        proof {
            assert(all_appended(window.elements.nodes@, content, 3));
            assert(appended_matches(window.elements.nodes@, content, 3, 0));
            assert(appended_matches(window.elements.nodes@, content, 3, 1));
        }
        window
    }
}

} // verus!
