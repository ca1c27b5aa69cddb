//! Products and the product tree.

use vstd::prelude::*;
use vstd::string::*;
use crate::event::{attribute_named, attribute_value, AttributeView, Event, Token};
use crate::reader::{Cursor, XmlReader};
use crate::text::{lemma_views_empty, lemma_views_push, or_keep, same_text, views};
use crate::textmap::TextMap;

verus! {

/// One `FullProductName` element.
#[derive(Debug, Clone, Eq, PartialEq, Hash)]
pub struct Product {
    /// The `ProductID` attribute.
    pub productid: String,
    /// The `CPE` attribute.
    pub cpe: String,
    /// The text of the element.
    pub content: String,
}

/// Mathematical view of a [`Product`].
pub struct ProductView {
    pub productid: Seq<char>,
    pub cpe: Seq<char>,
    pub content: Seq<char>,
}

impl ProductView {
    /// The empty product: every text and every collection in it is empty.
    pub open spec fn empty() -> ProductView {
        ProductView { productid: Seq::empty(), cpe: Seq::empty(), content: Seq::empty() }
    }

    /// The product with the fields that `attributes` name set from them, and with
    /// `content`.
    pub open spec fn with(self, attributes: Seq<AttributeView>, content: Seq<char>) -> ProductView {
        ProductView {
            productid: or_keep(attribute_named(attributes, "ProductID"@), self.productid),
            cpe: or_keep(attribute_named(attributes, "CPE"@), self.cpe),
            content,
        }
    }
}

impl View for Product {
    type V = ProductView;

    open spec fn view(&self) -> ProductView {
        ProductView { productid: self.productid@, cpe: self.cpe@, content: self.content@ }
    }
}

impl Product {
    /// An empty product, to load into.
    pub fn new() -> (product: Self)
        ensures
            product@ == ProductView::empty(),
    {
        Product { productid: String::new(), cpe: String::new(), content: String::new() }
    }

    /// What loading makes of `product` and `cursor`: each opening tag sets the
    /// fields that its attributes name and then the content from the next character
    /// data; the first closing tag, or the end of the stream, ends the load.
    pub open spec fn spec_load(product: ProductView, cursor: Cursor) -> (ProductView, Cursor)
        decreases cursor.remaining(),
        when cursor.wf()
    {
        let next = cursor.advance();
        match cursor.head() {
            Token::Start { attributes, .. } => {
                proof {
                    cursor.lemma_advance();
                    next.lemma_after_text();
                }
                Product::spec_load(product.with(attributes, next.text()), next.after_text())
            },
            Token::End | Token::EndDocument | Token::Failure => (product, next),
            _ => {
                proof {
                    cursor.lemma_advance();
                }
                Product::spec_load(product, next)
            },
        }
    }

    /// The load moves the cursor on.
    pub proof fn lemma_load(product: ProductView, cursor: Cursor)
        requires
            cursor.wf(),
        ensures
            Product::spec_load(product, cursor).1.advanced(cursor),
        decreases cursor.remaining(),
    {
        let next = cursor.advance();
        cursor.lemma_advance();
        match cursor.head() {
            Token::Start { attributes, .. } => {
                next.lemma_after_text();
                Product::lemma_load(product.with(attributes, next.text()), next.after_text());
            },
            Token::End | Token::EndDocument | Token::Failure => {},
            _ => {
                Product::lemma_load(product, next);
            },
        }
    }

    /// Where the stream goes on with an opening tag, character data and a closing
    /// tag, the product takes what the tag's attributes name and the character data
    /// as its content, and the cursor stands behind the closing tag.
    pub proof fn lemma_load_element(
        product: ProductView,
        cursor: Cursor,
        name: Seq<char>,
        attributes: Seq<AttributeView>,
        text: Seq<char>,
    )
        requires
            cursor.wf(),
            cursor.pending.len() > 3,
            cursor.pending[0] == (Token::Start { name, attributes }),
            cursor.pending[1] == Token::Text(text),
            cursor.pending[2] == Token::End,
        ensures
            Product::spec_load(product, cursor) == (
                product.with(attributes, text),
                cursor.advance().advance().advance(),
            ),
    {
        let inside = cursor.advance();
        cursor.lemma_advance();
        let behind = inside.advance();
        inside.lemma_advance();
        assert(inside.text() == text);
        assert(inside.after_text() == behind);
        assert(Product::spec_load(product.with(attributes, text), behind) == (
            product.with(attributes, text),
            behind.advance(),
        ));
    }

    /// Loads one product from the stream.
    pub fn load_from_xmlreader(&mut self, reader: &mut XmlReader)
        requires
            old(reader)@.wf(),
        ensures
            (final(self)@, final(reader)@) == Product::spec_load(old(self)@, old(reader)@),
            final(reader)@.advanced(old(reader)@),
    {
        proof {
            Product::lemma_load(old(self)@, old(reader)@);
        }
        loop
            invariant_except_break
                Product::spec_load(self@, reader@) == Product::spec_load(
                    old(self)@,
                    old(reader)@,
                ),
            invariant
                reader@.wf(),
            ensures
                (self@, reader@) == Product::spec_load(old(self)@, old(reader)@),
            decreases reader@.remaining(),
        {
            match reader.next() {
                Event::Start { attributes, .. } => {
                    if let Some(value) = attribute_value(&attributes, "ProductID") {
                        self.productid = value;
                    }
                    if let Some(value) = attribute_value(&attributes, "CPE") {
                        self.cpe = value;
                    }
                    self.content = reader.next_characters();
                },
                Event::End | Event::EndDocument | Event::Failure => {
                    break ;
                },
                _ => {},
            }
        }
    }
}

/// What loading one branch makes of `list` and `cursor`: products are loaded and
/// appended one after another until a load leaves the depth below 3 or the stream
/// has ended; the product of that last load is dropped.
pub open spec fn spec_load_branch(list: Seq<ProductView>, cursor: Cursor) -> (
    Seq<ProductView>,
    Cursor,
)
    decreases cursor.remaining(),
    when cursor.wf()
{
    let (product, after) = Product::spec_load(ProductView::empty(), cursor);
    if after.depth < 3 || after.finished {
        (list, after)
    } else {
        proof {
            Product::lemma_load(ProductView::empty(), cursor);
        }
        spec_load_branch(list.push(product), after)
    }
}

/// A branch load moves the cursor on, ends with the branch's scope closed, and
/// only appends: what the list held stays, in its place.
pub proof fn lemma_load_branch(list: Seq<ProductView>, cursor: Cursor)
    requires
        cursor.wf(),
    ensures
        spec_load_branch(list, cursor).1.advanced(cursor),
        spec_load_branch(list, cursor).1.closed_below(3),
        list.is_prefix_of(spec_load_branch(list, cursor).0),
    decreases cursor.remaining(),
{
    let (product, after) = Product::spec_load(ProductView::empty(), cursor);
    Product::lemma_load(ProductView::empty(), cursor);
    if !(after.depth < 3 || after.finished) {
        lemma_load_branch(list.push(product), after);
        assert(list.is_prefix_of(list.push(product)));
    }
}

/// At the end of a branch its load takes the branch's closing tag and no more:
/// where the stream goes on with a closing tag that leaves the depth below 3, the
/// list stays as it was and the cursor stands behind that tag.
pub proof fn lemma_load_branch_at_close(list: Seq<ProductView>, cursor: Cursor)
    requires
        cursor.wf(),
        cursor.head() is End,
        cursor.advance().depth < 3,
    ensures
        spec_load_branch(list, cursor) == (list, cursor.advance()),
{
}

/// Loads the products of one branch and appends them to `list`.
pub fn load_branch(list: &mut Vec<Product>, reader: &mut XmlReader)
    requires
        old(reader)@.wf(),
    ensures
        (views(final(list)@), final(reader)@) == spec_load_branch(
            views(old(list)@),
            old(reader)@,
        ),
        final(reader)@.advanced(old(reader)@),
        final(reader)@.closed_below(3),
{
    proof {
        lemma_load_branch(views(old(list)@), old(reader)@);
    }
    loop
        invariant_except_break
            spec_load_branch(views(list@), reader@) == spec_load_branch(
                views(old(list)@),
                old(reader)@,
            ),
        invariant
            reader@.wf(),
        ensures
            (views(list@), reader@) == spec_load_branch(views(old(list)@), old(reader)@),
        decreases reader@.remaining(),
    {
        let mut product = Product::new();
        product.load_from_xmlreader(reader);
        if reader.depth() < 3 || reader.finished() {
            break ;
        }
        proof {
            lemma_views_push(list@, product);
        }
        list.push(product);
    }
}

/// The `ProductTree` element.
#[derive(Debug, Clone)]
pub struct ProductTree {
    /// The products of the branches of type `Product Name`, in document order.
    pub products: Vec<Product>,
    /// The products of the branches of type `Package Arch`, by the branch's name.
    pub packages: TextMap<Vec<Product>>,
}

/// Mathematical view of a [`ProductTree`].
pub struct ProductTreeView {
    pub products: Seq<ProductView>,
    pub packages: Map<Seq<char>, Seq<ProductView>>,
}

impl ProductTreeView {
    /// The empty product tree: every text and every collection in it is empty.
    pub open spec fn empty() -> ProductTreeView {
        ProductTreeView { products: Seq::empty(), packages: Map::empty() }
    }

    /// `later` holds all that `self` holds, in the same places: each list of `self`
    /// is the beginning of the list that `later` has in its stead.
    pub open spec fn grown_to(self, later: ProductTreeView) -> bool {
        &&& self.products.is_prefix_of(later.products)
        &&& forall|name: Seq<char>| #[trigger]
            self.packages.contains_key(name) ==> later.packages.contains_key(name)
        &&& forall|name: Seq<char>| #[trigger]
            self.packages_of(name).is_prefix_of(later.packages_of(name))
    }

    /// Growth carries over: what has grown to `middle`, which has grown to `later`,
    /// has grown to `later`.
    pub proof fn lemma_grown_to(self, middle: ProductTreeView, later: ProductTreeView)
        requires
            self.grown_to(middle),
            middle.grown_to(later),
        ensures
            self.grown_to(later),
    {
        assert forall|name: Seq<char>| #[trigger]
            self.packages_of(name).is_prefix_of(later.packages_of(name)) by {
            assert(self.packages_of(name).is_prefix_of(middle.packages_of(name)));
            assert(middle.packages_of(name).is_prefix_of(later.packages_of(name)));
        }
    }

    /// The products held for the architecture `name`: none where it is unknown.
    pub open spec fn packages_of(self, name: Seq<char>) -> Seq<ProductView> {
        if self.packages.contains_key(name) {
            self.packages[name]
        } else {
            Seq::empty()
        }
    }
}

/// The views of the product lists of a map.
pub open spec fn package_views(packages: Map<Seq<char>, Vec<Product>>) -> Map<
    Seq<char>,
    Seq<ProductView>,
> {
    packages.map_values(|list: Vec<Product>| views(list@))
}

impl View for ProductTree {
    type V = ProductTreeView;

    open spec fn view(&self) -> ProductTreeView {
        ProductTreeView { products: views(self.products@), packages: package_views(self.packages@) }
    }
}

impl ProductTree {
    /// An empty product tree, to load into.
    pub fn new() -> (tree: Self)
        ensures
            tree@ == ProductTreeView::empty(),
    {
        let tree = ProductTree { products: Vec::new(), packages: TextMap::new() };
        proof {
            lemma_views_empty::<Product>();
            assert(tree@.packages =~= Map::empty());
        }
        tree
    }

    /// What loading makes of `tree` and `cursor`. Each opening tag is a branch, of
    /// the type and name that its attributes `Type` and `Name` give. A branch of
    /// type `Product Name` appends its products to the flat list; one of type
    /// `Package Arch` appends them to the list kept under its name, which starts
    /// empty; any other tag is passed over. A closing tag that leaves the depth
    /// below 2, or the end of the stream, ends the load.
    pub open spec fn spec_load(tree: ProductTreeView, cursor: Cursor) -> (ProductTreeView, Cursor)
        decreases cursor.remaining(),
        when cursor.wf()
    {
        let next = cursor.advance();
        match cursor.head() {
            Token::Start { attributes, .. } => {
                let kind = or_keep(attribute_named(attributes, "Type"@), Seq::empty());
                let name = or_keep(attribute_named(attributes, "Name"@), Seq::empty());
                proof {
                    cursor.lemma_advance();
                    lemma_load_branch(tree.products, next);
                    lemma_load_branch(tree.packages_of(name), next);
                }
                if kind == "Product Name"@ {
                    let (products, after) = spec_load_branch(tree.products, next);
                    ProductTree::spec_load(ProductTreeView { products, ..tree }, after)
                } else if kind == "Package Arch"@ {
                    let (list, after) = spec_load_branch(tree.packages_of(name), next);
                    ProductTree::spec_load(
                        ProductTreeView { packages: tree.packages.insert(name, list), ..tree },
                        after,
                    )
                } else {
                    ProductTree::spec_load(tree, next)
                }
            },
            Token::End => {
                if next.depth < 2 {
                    (tree, next)
                } else {
                    proof {
                        cursor.lemma_advance();
                    }
                    ProductTree::spec_load(tree, next)
                }
            },
            Token::EndDocument | Token::Failure => (tree, next),
            _ => {
                proof {
                    cursor.lemma_advance();
                }
                ProductTree::spec_load(tree, next)
            },
        }
    }

    /// The load moves the cursor on and ends with the depth below 2 or the stream at its end.
    pub proof fn lemma_load(tree: ProductTreeView, cursor: Cursor)
        requires
            cursor.wf(),
        ensures
            ProductTree::spec_load(tree, cursor).1.advanced(cursor),
            ProductTree::spec_load(tree, cursor).1.closed_below(2),
        decreases cursor.remaining(),
    {
        let next = cursor.advance();
        cursor.lemma_advance();
        match cursor.head() {
            Token::Start { attributes, .. } => {
                let kind = or_keep(attribute_named(attributes, "Type"@), Seq::empty());
                let name = or_keep(attribute_named(attributes, "Name"@), Seq::empty());
                lemma_load_branch(tree.products, next);
                lemma_load_branch(tree.packages_of(name), next);
                if kind == "Product Name"@ {
                    let (products, after) = spec_load_branch(tree.products, next);
                    ProductTree::lemma_load(ProductTreeView { products, ..tree }, after);
                } else if kind == "Package Arch"@ {
                    let (list, after) = spec_load_branch(tree.packages_of(name), next);
                    ProductTree::lemma_load(
                        ProductTreeView { packages: tree.packages.insert(name, list), ..tree },
                        after,
                    );
                } else {
                    ProductTree::lemma_load(tree, next);
                }
            },
            Token::End => {
                if next.depth >= 2 {
                    ProductTree::lemma_load(tree, next);
                }
            },
            Token::EndDocument | Token::Failure => {},
            _ => {
                ProductTree::lemma_load(tree, next);
            },
        }
    }

    /// Loading only adds to a product tree: the flat list keeps what it held and
    /// grows at its end, and so does the list of every architecture; branches that
    /// share a name add to one list.
    pub proof fn lemma_load_accumulates(tree: ProductTreeView, cursor: Cursor)
        requires
            cursor.wf(),
        ensures
            tree.grown_to(ProductTree::spec_load(tree, cursor).0),
        decreases cursor.remaining(),
    {
        let next = cursor.advance();
        cursor.lemma_advance();
        match cursor.head() {
            Token::Start { attributes, .. } => {
                let kind = or_keep(attribute_named(attributes, "Type"@), Seq::empty());
                let name = or_keep(attribute_named(attributes, "Name"@), Seq::empty());
                lemma_load_branch(tree.products, next);
                lemma_load_branch(tree.packages_of(name), next);
                if kind == "Product Name"@ {
                    let (products, after) = spec_load_branch(tree.products, next);
                    let grown = ProductTreeView { products, ..tree };
                    ProductTree::lemma_load_accumulates(grown, after);
                    tree.lemma_grown_to(grown, ProductTree::spec_load(grown, after).0);
                } else if kind == "Package Arch"@ {
                    let (list, after) = spec_load_branch(tree.packages_of(name), next);
                    let grown = ProductTreeView {
                        packages: tree.packages.insert(name, list),
                        ..tree
                    };
                    ProductTree::lemma_load_accumulates(grown, after);
                    tree.lemma_grown_to(grown, ProductTree::spec_load(grown, after).0);
                } else {
                    ProductTree::lemma_load_accumulates(tree, next);
                }
            },
            Token::End => {
                if next.depth >= 2 {
                    ProductTree::lemma_load_accumulates(tree, next);
                }
            },
            Token::EndDocument | Token::Failure => {},
            _ => {
                ProductTree::lemma_load_accumulates(tree, next);
            },
        }
    }

    /// Loads the product tree from the stream.
    pub fn load_from_xmlreader(&mut self, reader: &mut XmlReader)
        requires
            old(reader)@.wf(),
        ensures
            (final(self)@, final(reader)@) == ProductTree::spec_load(old(self)@, old(reader)@),
            final(reader)@.advanced(old(reader)@),
            final(reader)@.closed_below(2),
    {
        proof {
            ProductTree::lemma_load(old(self)@, old(reader)@);
        }
        loop
            invariant_except_break
                ProductTree::spec_load(self@, reader@) == ProductTree::spec_load(
                    old(self)@,
                    old(reader)@,
                ),
            invariant
                reader@.wf(),
            ensures
                (self@, reader@) == ProductTree::spec_load(old(self)@, old(reader)@),
            decreases reader@.remaining(),
        {
            match reader.next() {
                Event::Start { attributes, .. } => {
                    let kind = match attribute_value(&attributes, "Type") {
                        Some(value) => value,
                        None => String::new(),
                    };
                    let name = match attribute_value(&attributes, "Name") {
                        Some(value) => value,
                        None => String::new(),
                    };
                    if same_text(kind.as_str(), "Product Name") {
                        self._load_products_branch(reader);
                    } else if same_text(kind.as_str(), "Package Arch") {
                        self._load_packages_branch(name.as_str(), reader);
                    }
                },
                Event::End => {
                    if reader.depth() < 2 {
                        break ;
                    }
                },
                Event::EndDocument | Event::Failure => {
                    break ;
                },
                _ => {},
            }
        }
    }

    /// Loads a branch of type `Product Name` into the flat list.
    pub fn _load_products_branch(&mut self, reader: &mut XmlReader)
        requires
            old(reader)@.wf(),
        ensures
            (final(self)@.products, final(reader)@) == spec_load_branch(
                old(self)@.products,
                old(reader)@,
            ),
            final(self)@.packages == old(self)@.packages,
            final(reader)@.advanced(old(reader)@),
    {
        load_branch(&mut self.products, reader);
    }

    /// Loads a branch of type `Package Arch` into the list kept under `key`.
    pub fn _load_packages_branch(&mut self, key: &str, reader: &mut XmlReader)
        requires
            old(reader)@.wf(),
        ensures
            final(self)@.packages == old(self)@.packages.insert(
                key@,
                spec_load_branch(old(self)@.packages_of(key@), old(reader)@).0,
            ),
            final(reader)@ == spec_load_branch(old(self)@.packages_of(key@), old(reader)@).1,
            final(self)@.products == old(self)@.products,
            final(reader)@.advanced(old(reader)@),
    {
        let mut list = match self.packages.insert(String::from_str(key), Vec::new()) {
            Some(held) => held,
            None => Vec::new(),
        };
        proof {
            lemma_views_empty::<Product>();
        }
        load_branch(&mut list, reader);
        self.packages.insert(String::from_str(key), list);
        assert(package_views(self.packages@) =~= package_views(old(self).packages@).insert(
            key@,
            views(list@),
        ));
    }
}

} // verus!
