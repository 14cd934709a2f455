# aegis

Verified registers and readers for three Aegis OS subsystems, written in Verus.
Every function in `src/` carries a contract over a mathematical model of its
inputs and results, and Verus proves the code against it.

| Path | What it holds |
| --- | --- |
| `src/text.rs` | Character classes, trimming, line splitting, UTF-8 lengths, decimal rendering |
| `src/fabrica/` | The systemd drop-in reader, `repart.d` and `sysupdate.d` definitions, bounded field types, the kernel requirement and the product-input manifest |
| `src/compositor/` | Bounded identifiers, the surface registry, the client table, the mocked mesh, frame pacing, recorded decisions |
| `src/hephaestus/` | `STEP` paths, tolerances, mesh plans, the bounded evaluation walk, the solver admission and the verification intake |
| `tests/` | Scenarios on concrete values |
| `app/` | The JSON wire forms (serde) and the error types with `Display` |

Properties that span several calls are stated as public proof functions:

* `fabrica::canonical::unit_round_trip`, `fabrica::repart::repart_round_trip`,
  `fabrica::sysupdate::transfer_round_trip`: an accepted drop-in reads back
  from its canonical rendering with the same sections, assignments and values,
  and from the second pass on the round trip is the identity.
* `fabrica::canonical::parsed_unit_shape`, `fabrica::repart::parsed_drop_in_shape`:
  what the reader and the repart parser accept.
* `fabrica::field::release_order_*`: kernel releases are totally preordered.
* `fabrica::kernel::unmet_report_is_complete`,
  `fabrica::kernel::unrecorded_symbol_is_reported`: the unmet report of a
  validated requirement is never cut short, and a symbol the profile does not
  record is reported rather than assumed.
* `compositor::mesh::published_sample_is_retained`,
  `compositor::mesh::subscriber_may_not_publish`,
  `compositor::mesh::admitted_client_is_held`,
  `compositor::mesh::declared_subscription_is_held`,
  `compositor::surface::registered_surface_is_found`: what a call records is
  what a later lookup finds.
* `compositor::mesh::retained_sample_survives_other_calls`,
  `compositor::mesh::unpublished_key_is_absent`,
  `compositor::mesh::publication_survives_later_calls`,
  `compositor::mesh::topics_count_retained_keys`: over any sequence of calls,
  a retained sample stays until a publication on its key succeeds again.
* `compositor::id::key_expr_shape`, `fabrica::canonical::line_count_refusal`:
  which texts are key expressions, and when a drop-in is refused for its
  length.
* `compositor::id::label_text_round_trip`,
  `compositor::id::key_expr_text_round_trip`: an accepted identifier reads
  back as the text it was given.

## What is not here

Three pieces of the subsystems' edges are built from crates this library
does not depend on, so they have no place in it:

* the focus-switch report the compositor hands the focus broker, a type of
  the broker's crate (`aegis-lictor`);
* decoding the overlay stream descriptor, done by the producer's own decoder
  (`aegis-calliope`); what the compositor does with the decoded fields is
  `compositor::chain::overlay_request`;
* the geometry viewport descriptor, whose correlation identity and time are
  types of the shared identity crate (`aegis-justitia`) and whose encoding
  belongs to the geometry slice's contract crate; its one check of its own
  is `hephaestus::geometry::CadEngine::reads_step`, and its versions are
  `hephaestus::contracts::viewport::GeometryViewportVersion`.
