use vstd::prelude::*;

verus! {

/// The read direction of the projection layer: a row converts to the domain
/// entity it represents. Total: no failure mode.
pub trait ToEntity<Entity>: Sized {
    /// The entity this row stands for. Verified implementations override this
    /// to say which; for an implementation the verifier never sees, it stays
    /// unspecified.
    open spec fn spec_to_entity(self) -> Entity {
        arbitrary()
    }

    fn to_entity(self) -> (r: Entity)
        ensures
            r == self.spec_to_entity(),
    ;
}

/// The write direction of the projection layer: a domain entity converts to
/// its row form. Total: no failure mode.
pub trait FromEntity<Entity>: Sized {
    /// The row form of the entity. Verified implementations override this to
    /// say which; for an implementation the verifier never sees, it stays
    /// unspecified.
    open spec fn spec_from_entity(e: Entity) -> Self {
        arbitrary()
    }

    fn from_entity(e: Entity) -> (r: Self)
        ensures
            r == Self::spec_from_entity(e),
    ;
}

/// Ties an entity type to its row type, with both directions defined: `to_db`
/// is the canonical projection through `FromEntity`.
pub trait ToDatabase: Sized {
    type DbEntity: FromEntity<Self> + ToEntity<Self>;

    fn to_db(self) -> (r: Self::DbEntity)
        ensures
            r == Self::DbEntity::spec_from_entity(self),
    ;
}

/// That a projection is declared bijective: the row form of every entity
/// converts back to that entity.
pub open spec fn projection_bijective<Entity: ToDatabase>() -> bool {
    forall|e: Entity| #[trigger] Entity::DbEntity::spec_from_entity(e).spec_to_entity() == e
}

/// Law: whenever both directions are defined for a type and the mapping is
/// declared bijective, projecting an entity to its row form and back yields an
/// equal entity.
pub proof fn lemma_projection_round_trip<Entity: ToDatabase>(e: Entity)
    requires
        projection_bijective::<Entity>(),
    ensures
        Entity::DbEntity::spec_from_entity(e).spec_to_entity() == e,
{
}

/// The executable round trip: converting an entity to its row form and back
/// returns an equal entity whenever the mapping is declared bijective.
pub fn round_trip<Entity: ToDatabase>(e: Entity) -> (r: Entity)
    requires
        projection_bijective::<Entity>(),
    ensures
        r == e,
{
    let ghost start = e;
    let row = e.to_db();
    let back = row.to_entity();
    proof {
        lemma_projection_round_trip::<Entity>(start);
    }
    back
}

} // verus!
