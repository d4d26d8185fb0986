//! The static product catalog: a fixed lookup table keyed by product id,
//! queried by id or listed in full. Read-only, fixed at process start.

use vstd::prelude::*;

verus! {

/// A catalog entry. `stock` is a static ceiling for cart quantities,
/// never decremented.
pub struct Product {
    pub id: u32,
    pub name: String,
    pub price_cents: u32,
    pub image_url: Option<String>,
    pub stock: u32,
}

/// The ids the catalog holds.
pub open spec fn in_catalog(id: u32) -> bool {
    1 <= id <= 20
}

/// Unit price in cents of the catalog entry `id`.
pub open spec fn cat_price(id: u32) -> u32 {
    if id == 1 {
        799u32
    } else if id == 2 {
        899u32
    } else if id == 3 {
        599u32
    } else if id == 4 {
        549u32
    } else if id == 5 {
        1899u32
    } else if id == 6 {
        489u32
    } else if id == 7 {
        999u32
    } else if id == 8 {
        399u32
    } else if id == 9 {
        499u32
    } else if id == 10 {
        699u32
    } else if id == 11 {
        299u32
    } else if id == 12 {
        1299u32
    } else if id == 13 {
        1599u32
    } else if id == 14 {
        1399u32
    } else if id == 15 {
        999u32
    } else if id == 16 {
        399u32
    } else if id == 17 {
        699u32
    } else if id == 18 {
        1499u32
    } else if id == 19 {
        799u32
    } else {
        999u32
    }
}

/// Stock ceiling of the catalog entry `id`.
pub open spec fn cat_stock(id: u32) -> u32 {
    if id == 1 {
        50u32
    } else if id == 2 {
        50u32
    } else if id == 3 {
        60u32
    } else if id == 4 {
        70u32
    } else if id == 5 {
        40u32
    } else if id == 6 {
        80u32
    } else if id == 7 {
        50u32
    } else if id == 8 {
        90u32
    } else if id == 9 {
        70u32
    } else if id == 10 {
        60u32
    } else if id == 11 {
        100u32
    } else if id == 12 {
        40u32
    } else if id == 13 {
        35u32
    } else if id == 14 {
        35u32
    } else if id == 15 {
        80u32
    } else if id == 16 {
        120u32
    } else if id == 17 {
        70u32
    } else if id == 18 {
        40u32
    } else if id == 19 {
        50u32
    } else {
        45u32
    }
}

/// Display name of the catalog entry `id`.
pub open spec fn cat_name(id: u32) -> Seq<char> {
    if id == 1 {
        "Arroz 1kg"@
    } else if id == 2 {
        "Feijão 1kg"@
    } else if id == 3 {
        "Macarrão 500g"@
    } else if id == 4 {
        "Leite 1L"@
    } else if id == 5 {
        "Café 500g"@
    } else if id == 6 {
        "Açúcar 1kg"@
    } else if id == 7 {
        "Óleo 900ml"@
    } else if id == 8 {
        "Biscoito 200g"@
    } else if id == 9 {
        "Molho de Tomate 340g"@
    } else if id == 10 {
        "Farinha de Trigo 1kg"@
    } else if id == 11 {
        "Sal 1kg"@
    } else if id == 12 {
        "Manteiga 200g"@
    } else if id == 13 {
        "Queijo Mussarela 200g"@
    } else if id == 14 {
        "Presunto 200g"@
    } else if id == 15 {
        "Refrigerante 2L"@
    } else if id == 16 {
        "Água Mineral 1.5L"@
    } else if id == 17 {
        "Suco 1L"@
    } else if id == 18 {
        "Cereal 300g"@
    } else if id == 19 {
        "Chocolate 100g"@
    } else {
        "Arroz Integral 1kg"@
    }
}

/// Image reference of the catalog entry `id`.
pub open spec fn cat_image(id: u32) -> Seq<char> {
    if id == 1 {
        "images/arroz.png"@
    } else if id == 2 {
        "images/feijao.png"@
    } else if id == 3 {
        "images/macarrao.png"@
    } else if id == 4 {
        "images/leite.png"@
    } else if id == 5 {
        "images/cafe.png"@
    } else if id == 6 {
        "images/açucar.png"@
    } else if id == 7 {
        "images/oleo.png"@
    } else if id == 8 {
        "images/biscoito.png"@
    } else if id == 9 {
        "images/molho de tomate.png"@
    } else if id == 10 {
        "images/farinha de trigo.png"@
    } else if id == 11 {
        "images/sal.png"@
    } else if id == 12 {
        "images/manteiga.png"@
    } else if id == 13 {
        "images/queijo mussarela.png"@
    } else if id == 14 {
        "images/presunto.png"@
    } else if id == 15 {
        "images/refrigerante.png"@
    } else if id == 16 {
        "images/agua.png"@
    } else if id == 17 {
        "images/suco.png"@
    } else if id == 18 {
        "images/cereal.png"@
    } else if id == 19 {
        "images/chocolate.png"@
    } else {
        "images/arroz integral.png"@
    }
}

/// Every catalog price is a positive number of cents.
pub proof fn lemma_cat_price_positive(id: u32)
    ensures
        cat_price(id) > 0,
{
}

/// Whether a `Product` value carries exactly the catalog's data for `id`.
pub open spec fn product_matches(p: Product, id: u32) -> bool {
    &&& p.id == id
    &&& p.name@ == cat_name(id)
    &&& p.price_cents == cat_price(id)
    &&& p.image_url matches Some(u) && u@ == cat_image(id)
    &&& p.stock == cat_stock(id)
}

/// Looks an entry up by id; `Some` exactly for the ids the catalog holds.
pub fn get_product_by_id(id: u32) -> (r: Option<Product>)
    ensures
        r is Some <==> in_catalog(id),
        r matches Some(p) ==> product_matches(p, id),
{
    if id == 1 {
        Some(Product { id, name: String::from_str("Arroz 1kg"), price_cents: 799, image_url: Some(String::from_str("images/arroz.png")), stock: 50 })
    } else if id == 2 {
        Some(Product { id, name: String::from_str("Feijão 1kg"), price_cents: 899, image_url: Some(String::from_str("images/feijao.png")), stock: 50 })
    } else if id == 3 {
        Some(Product { id, name: String::from_str("Macarrão 500g"), price_cents: 599, image_url: Some(String::from_str("images/macarrao.png")), stock: 60 })
    } else if id == 4 {
        Some(Product { id, name: String::from_str("Leite 1L"), price_cents: 549, image_url: Some(String::from_str("images/leite.png")), stock: 70 })
    } else if id == 5 {
        Some(Product { id, name: String::from_str("Café 500g"), price_cents: 1899, image_url: Some(String::from_str("images/cafe.png")), stock: 40 })
    } else if id == 6 {
        Some(Product { id, name: String::from_str("Açúcar 1kg"), price_cents: 489, image_url: Some(String::from_str("images/açucar.png")), stock: 80 })
    } else if id == 7 {
        Some(Product { id, name: String::from_str("Óleo 900ml"), price_cents: 999, image_url: Some(String::from_str("images/oleo.png")), stock: 50 })
    } else if id == 8 {
        Some(Product { id, name: String::from_str("Biscoito 200g"), price_cents: 399, image_url: Some(String::from_str("images/biscoito.png")), stock: 90 })
    } else if id == 9 {
        Some(Product { id, name: String::from_str("Molho de Tomate 340g"), price_cents: 499, image_url: Some(String::from_str("images/molho de tomate.png")), stock: 70 })
    } else if id == 10 {
        Some(Product { id, name: String::from_str("Farinha de Trigo 1kg"), price_cents: 699, image_url: Some(String::from_str("images/farinha de trigo.png")), stock: 60 })
    } else if id == 11 {
        Some(Product { id, name: String::from_str("Sal 1kg"), price_cents: 299, image_url: Some(String::from_str("images/sal.png")), stock: 100 })
    } else if id == 12 {
        Some(Product { id, name: String::from_str("Manteiga 200g"), price_cents: 1299, image_url: Some(String::from_str("images/manteiga.png")), stock: 40 })
    } else if id == 13 {
        Some(Product { id, name: String::from_str("Queijo Mussarela 200g"), price_cents: 1599, image_url: Some(String::from_str("images/queijo mussarela.png")), stock: 35 })
    } else if id == 14 {
        Some(Product { id, name: String::from_str("Presunto 200g"), price_cents: 1399, image_url: Some(String::from_str("images/presunto.png")), stock: 35 })
    } else if id == 15 {
        Some(Product { id, name: String::from_str("Refrigerante 2L"), price_cents: 999, image_url: Some(String::from_str("images/refrigerante.png")), stock: 80 })
    } else if id == 16 {
        Some(Product { id, name: String::from_str("Água Mineral 1.5L"), price_cents: 399, image_url: Some(String::from_str("images/agua.png")), stock: 120 })
    } else if id == 17 {
        Some(Product { id, name: String::from_str("Suco 1L"), price_cents: 699, image_url: Some(String::from_str("images/suco.png")), stock: 70 })
    } else if id == 18 {
        Some(Product { id, name: String::from_str("Cereal 300g"), price_cents: 1499, image_url: Some(String::from_str("images/cereal.png")), stock: 40 })
    } else if id == 19 {
        Some(Product { id, name: String::from_str("Chocolate 100g"), price_cents: 799, image_url: Some(String::from_str("images/chocolate.png")), stock: 50 })
    } else if id == 20 {
        Some(Product { id, name: String::from_str("Arroz Integral 1kg"), price_cents: 999, image_url: Some(String::from_str("images/arroz integral.png")), stock: 45 })
    } else {
        None
    }
}

/// Lists the whole catalog, in id order.
pub fn list_products() -> (r: Vec<Product>)
    ensures
        r@.len() == 20,
        forall|i: int| 0 <= i < 20 ==> product_matches(#[trigger] r@[i], (i + 1) as u32),
{
    let mut products: Vec<Product> = Vec::new();
    let mut id: u32 = 1;
    while id <= 20
        invariant
            1 <= id <= 21,
            products@.len() == id - 1,
            forall|i: int| 0 <= i < id - 1 ==> product_matches(#[trigger] products@[i], (i + 1) as u32),
        decreases 21 - id,
    {
        let p = match get_product_by_id(id) {
            Some(p) => p,
            None => {
                proof {
                    assert(false);
                }
                Product { id: 0, name: String::new(), price_cents: 0, image_url: None, stock: 0 }
            },
        };
        products.push(p);
        id += 1;
    }
    products
}

} // verus!
