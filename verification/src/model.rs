use vstd::prelude::*;

verus! {

/// A laptop, as it is stored and as it travels in JSON.
///
/// `id` is given by the store: a laptop that has not been stored yet has none.
/// The nine other attributes are free text.
#[derive(Clone, Debug, PartialEq, Eq)]
pub struct Laptop {
    pub id: Option<i32>,
    pub name: String,
    pub description: String,
    pub price: String,
    pub processor: String,
    pub ram: String,
    pub storage: String,
    pub display: String,
    pub os: String,
    pub graphics: String,
}

/// What a `Laptop` holds, as mathematical values.
pub struct LaptopView {
    pub id: Option<i32>,
    pub name: Seq<char>,
    pub description: Seq<char>,
    pub price: Seq<char>,
    pub processor: Seq<char>,
    pub ram: Seq<char>,
    pub storage: Seq<char>,
    pub display: Seq<char>,
    pub os: Seq<char>,
    pub graphics: Seq<char>,
}

impl View for Laptop {
    type V = LaptopView;

    open spec fn view(&self) -> LaptopView {
        LaptopView {
            id: self.id,
            name: self.name@,
            description: self.description@,
            price: self.price@,
            processor: self.processor@,
            ram: self.ram@,
            storage: self.storage@,
            display: self.display@,
            os: self.os@,
            graphics: self.graphics@,
        }
    }
}

impl LaptopView {
    /// The same laptop under the identifier `id`.
    pub open spec fn with_id(self, id: i32) -> LaptopView {
        LaptopView { id: Some(id), ..self }
    }
}

/// The views of the laptops of `rows`, in the same order.
pub open spec fn views(rows: Seq<Laptop>) -> Seq<LaptopView> {
    rows.map_values(|laptop: Laptop| laptop@)
}

/// The view of a laptop that may be missing.
pub open spec fn view_of(laptop: Option<Laptop>) -> Option<LaptopView> {
    match laptop {
        Some(laptop) => Some(laptop@),
        None => None,
    }
}

} // verus!
