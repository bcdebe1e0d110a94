# name_it

Name the future that an `async fn` returns, so that it can be stored in a
struct without boxing.

- `src/` is the library, with each function proved against its contract:
  - `named.rs`, `layout.rs`: the wrapper `Named` and the size and alignment
    of a function's future (`FutParams`, `size_of_fut`, `align_of_fut`);
  - `types.rs`, `signature.rs`, `visibility.rs`, `names.rs`, `order.rs`: a
    model of the syntax that the attribute expansions read;
  - `elision.rs`, `name_it.rs`, `async_trait.rs`: what `#[name_it]` and
    `#[async_trait]` decide on that model, with exact contracts;
  - `laws.rs`: properties that hold across those decisions.
- `app/` holds what the library cannot: the unsafe storage and polling of
  named futures, the macros that expansions call, and the conversion between
  syn's syntax trees and the model.
- `tests/` runs the library on concrete models.
